//! The binary message codec: a compact, self-describing encoding of the
//! message grammar, defined here as spec functions over byte sequences, with
//! executable encode/decode functions proved against them and a proof that
//! decoding inverts encoding.
//!
//! Layout: every variant is introduced by a one-byte tag; integers are
//! little-endian with a fixed width; characters are the three-byte code
//! point; strings and lists carry an eight-byte element count.

use vstd::prelude::*;
use crate::decimal::Decimal;
use crate::mac::Mac;
use crate::message::{Message, MessageView};
use crate::multitype::SettingValue;
use crate::request::{Request, RequestView};
use crate::response::{Response, ResponseView, SettingValueView};
use crate::setting::SettingName;

verus! {

// ---------------------------------------------------------------------------
// Byte-level primitives
// ---------------------------------------------------------------------------
/// `v` in base 256, least significant byte first, in exactly `w` bytes.
pub open spec fn le_bytes(v: nat, w: nat) -> Seq<u8>
    decreases w,
{
    if w == 0 {
        Seq::empty()
    } else {
        seq![(v % 256) as u8] + le_bytes(v / 256, (w - 1) as nat)
    }
}

/// The value of a little-endian byte string.
pub open spec fn le_val(b: Seq<u8>) -> nat
    decreases b.len(),
{
    if b.len() == 0 {
        0
    } else {
        (b[0] + 256 * le_val(b.drop_first())) as nat
    }
}

pub open spec fn pow256(w: nat) -> nat
    decreases w,
{
    if w == 0 {
        1
    } else {
        256 * pow256((w - 1) as nat)
    }
}

proof fn lemma_le_bytes_len(v: nat, w: nat)
    ensures
        le_bytes(v, w).len() == w,
    decreases w,
{
    if w > 0 {
        lemma_le_bytes_len(v / 256, (w - 1) as nat);
    }
}

proof fn lemma_le_round_trip(v: nat, w: nat)
    requires
        v < pow256(w),
    ensures
        le_bytes(v, w).len() == w,
        le_val(le_bytes(v, w)) == v,
    decreases w,
{
    lemma_le_bytes_len(v, w);
    if w > 0 {
        assert(v / 256 < pow256((w - 1) as nat)) by {
            assert(v < 256 * pow256((w - 1) as nat));
        };
        lemma_le_round_trip(v / 256, (w - 1) as nat);
        assert(le_bytes(v, w).drop_first() =~= le_bytes(v / 256, (w - 1) as nat));
    }
}

// ---------------------------------------------------------------------------
// Spec-level encoders, over the view types
// ---------------------------------------------------------------------------
pub open spec fn enc_u16(v: u16) -> Seq<u8> {
    le_bytes(v as nat, 2)
}

pub open spec fn enc_u64(v: u64) -> Seq<u8> {
    le_bytes(v as nat, 8)
}

/// The length prefix of a string or list.
pub open spec fn enc_len(n: nat) -> Seq<u8> {
    le_bytes(n, 8)
}

pub open spec fn enc_char(c: char) -> Seq<u8> {
    le_bytes(c as nat, 3)
}

pub open spec fn enc_bool(v: bool) -> Seq<u8> {
    if v {
        seq![1u8]
    } else {
        seq![0u8]
    }
}

/// A whole part in `[-128, 127]` as one byte, two's complement.
pub open spec fn i8_byte(v: i8) -> u8 {
    if v >= 0 {
        v as u8
    } else {
        (v + 256) as u8
    }
}

pub open spec fn byte_i8(b: u8) -> i8 {
    if b < 128 {
        b as i8
    } else {
        (b - 256) as i8
    }
}

pub open spec fn enc_decimal(d: Decimal) -> Seq<u8> {
    seq![i8_byte(d.0), d.1]
}

pub open spec fn enc_mac(m: Mac) -> Seq<u8> {
    seq![m.0, m.1, m.2, m.3, m.4, m.5]
}

pub open spec fn enc_opt_u16(v: Option<u16>) -> Seq<u8> {
    match v {
        None => seq![0u8],
        Some(x) => seq![1u8] + enc_u16(x),
    }
}

pub open spec fn enc_chars(s: Seq<char>) -> Seq<u8>
    decreases s.len(),
{
    if s.len() == 0 {
        Seq::empty()
    } else {
        enc_char(s[0]) + enc_chars(s.drop_first())
    }
}

pub open spec fn enc_string(s: Seq<char>) -> Seq<u8> {
    enc_len(s.len()) + enc_chars(s)
}

/// The tag byte of a setting name.
pub open spec fn name_code(n: SettingName) -> u8 {
    match n {
        SettingName::BatteryIgnore => 0,
        SettingName::Ota => 1,
        SettingName::SleepTime => 2,
        SettingName::Sbop => 3,
        SettingName::MuteNotifications => 4,
    }
}

pub open spec fn code_name(b: u8) -> Option<SettingName> {
    if b == 0 {
        Some(SettingName::BatteryIgnore)
    } else if b == 1 {
        Some(SettingName::Ota)
    } else if b == 2 {
        Some(SettingName::SleepTime)
    } else if b == 3 {
        Some(SettingName::Sbop)
    } else if b == 4 {
        Some(SettingName::MuteNotifications)
    } else {
        None
    }
}

pub open spec fn enc_names_items(s: Seq<SettingName>) -> Seq<u8>
    decreases s.len(),
{
    if s.len() == 0 {
        Seq::empty()
    } else {
        seq![name_code(s[0])] + enc_names_items(s.drop_first())
    }
}

pub open spec fn enc_names(s: Seq<SettingName>) -> Seq<u8> {
    enc_len(s.len()) + enc_names_items(s)
}

pub open spec fn enc_value(v: SettingValueView) -> Seq<u8> {
    match v {
        SettingValueView::Number(x) => seq![1u8] + enc_u16(x),
        SettingValueView::Decimal(d) => seq![2u8] + enc_decimal(d),
        SettingValueView::Text(t) => seq![3u8] + enc_string(t),
        SettingValueView::Boolean(x) => seq![4u8] + enc_bool(x),
    }
}

pub open spec fn enc_values_items(s: Seq<SettingValueView>) -> Seq<u8>
    decreases s.len(),
{
    if s.len() == 0 {
        Seq::empty()
    } else {
        enc_value(s[0]) + enc_values_items(s.drop_first())
    }
}

pub open spec fn enc_values(s: Seq<SettingValueView>) -> Seq<u8> {
    enc_len(s.len()) + enc_values_items(s)
}

pub open spec fn enc_request(q: RequestView) -> Seq<u8> {
    match q {
        RequestView::Ping => seq![1u8],
        RequestView::Bye => seq![2u8],
        RequestView::Hello { mac } => seq![3u8] + enc_mac(mac),
        RequestView::PostResults { temperature, humidity, air_pressure } => seq![4u8]
            + enc_decimal(temperature) + seq![humidity] + enc_opt_u16(air_pressure),
        RequestView::PostStats { battery, wifi_ssid, wifi_rssi } => seq![5u8] + enc_decimal(battery)
            + enc_string(wifi_ssid) + seq![i8_byte(wifi_rssi)],
        RequestView::SendNotification(text) => seq![6u8] + enc_string(text),
        RequestView::GetSettings(names) => seq![7u8] + enc_names(names),
    }
}

pub open spec fn enc_response(p: ResponseView) -> Seq<u8> {
    match p {
        ResponseView::Pong => seq![1u8],
        ResponseView::Okay => seq![2u8],
        ResponseView::Reject => seq![3u8],
        ResponseView::Settings(values) => seq![4u8] + enc_values(values),
    }
}

/// The full encoding of a message.
pub open spec fn enc_message(m: MessageView) -> Seq<u8> {
    match m {
        MessageView::Request(q) => seq![1u8] + enc_request(q),
        MessageView::Response(p) => seq![2u8] + enc_response(p),
    }
}

// ---------------------------------------------------------------------------
// Well-formedness: every length must fit its eight-byte prefix. Any value
// built from executable strings and vectors satisfies these bounds.
// ---------------------------------------------------------------------------
pub open spec fn wf_len(n: nat) -> bool {
    n < 0x1_0000_0000_0000_0000
}

pub open spec fn wf_value(v: SettingValueView) -> bool {
    match v {
        SettingValueView::Text(t) => wf_len(t.len()),
        _ => true,
    }
}

pub open spec fn wf_request(q: RequestView) -> bool {
    match q {
        RequestView::PostStats { wifi_ssid, .. } => wf_len(wifi_ssid.len()),
        RequestView::SendNotification(text) => wf_len(text.len()),
        RequestView::GetSettings(names) => wf_len(names.len()),
        _ => true,
    }
}

pub open spec fn wf_response(p: ResponseView) -> bool {
    match p {
        ResponseView::Settings(values) => wf_len(values.len()) && (forall|k: int|
            0 <= k < values.len() ==> wf_value(#[trigger] values[k])),
        _ => true,
    }
}

pub open spec fn wf_message(m: MessageView) -> bool {
    match m {
        MessageView::Request(q) => wf_request(q),
        MessageView::Response(p) => wf_response(p),
    }
}

// ---------------------------------------------------------------------------
// Spec-level decoders: a cursor into a byte sequence. Each returns the
// decoded value and the position just past it, or `None`.
// ---------------------------------------------------------------------------
pub open spec fn dec_u8(b: Seq<u8>, i: int) -> Option<(u8, int)> {
    if 0 <= i && i + 1 <= b.len() {
        Some((b[i], i + 1))
    } else {
        None
    }
}

pub open spec fn dec_u16(b: Seq<u8>, i: int) -> Option<(u16, int)> {
    if 0 <= i && i + 2 <= b.len() {
        Some(((le_val(b.subrange(i, i + 2)) as u16), i + 2))
    } else {
        None
    }
}

pub open spec fn dec_u64(b: Seq<u8>, i: int) -> Option<(u64, int)> {
    if 0 <= i && i + 8 <= b.len() {
        Some(((le_val(b.subrange(i, i + 8)) as u64), i + 8))
    } else {
        None
    }
}

pub open spec fn valid_scalar(v: u32) -> bool {
    v < 0xD800 || (0xE000 <= v && v <= 0x10FFFF)
}

pub open spec fn dec_char(b: Seq<u8>, i: int) -> Option<(char, int)> {
    if 0 <= i && i + 3 <= b.len() {
        let v = le_val(b.subrange(i, i + 3)) as u32;
        if valid_scalar(v) {
            Some(((v as char), i + 3))
        } else {
            None
        }
    } else {
        None
    }
}

pub open spec fn dec_bool(b: Seq<u8>, i: int) -> Option<(bool, int)> {
    match dec_u8(b, i) {
        Some((v, j)) => if v == 0 {
            Some((false, j))
        } else if v == 1 {
            Some((true, j))
        } else {
            None
        },
        None => None,
    }
}

pub open spec fn dec_i8(b: Seq<u8>, i: int) -> Option<(i8, int)> {
    match dec_u8(b, i) {
        Some((v, j)) => Some((byte_i8(v), j)),
        None => None,
    }
}

pub open spec fn dec_decimal(b: Seq<u8>, i: int) -> Option<(Decimal, int)> {
    if 0 <= i && i + 2 <= b.len() {
        Some((Decimal(byte_i8(b[i]), b[i + 1]), i + 2))
    } else {
        None
    }
}

pub open spec fn dec_mac(b: Seq<u8>, i: int) -> Option<(Mac, int)> {
    if 0 <= i && i + 6 <= b.len() {
        Some((Mac(b[i], b[i + 1], b[i + 2], b[i + 3], b[i + 4], b[i + 5]), i + 6))
    } else {
        None
    }
}

pub open spec fn dec_opt_u16(b: Seq<u8>, i: int) -> Option<(Option<u16>, int)> {
    match dec_u8(b, i) {
        Some((t, j)) => if t == 0 {
            Some((None, j))
        } else if t == 1 {
            match dec_u16(b, j) {
                Some((v, k)) => Some((Some(v), k)),
                None => None,
            }
        } else {
            None
        },
        None => None,
    }
}

pub open spec fn dec_chars(b: Seq<u8>, i: int, n: nat) -> Option<(Seq<char>, int)>
    decreases n,
{
    if n == 0 {
        Some((Seq::empty(), i))
    } else {
        match dec_char(b, i) {
            Some((c, j)) => match dec_chars(b, j, (n - 1) as nat) {
                Some((cs, k)) => Some((seq![c] + cs, k)),
                None => None,
            },
            None => None,
        }
    }
}

pub open spec fn dec_string(b: Seq<u8>, i: int) -> Option<(Seq<char>, int)> {
    match dec_u64(b, i) {
        Some((n, j)) => dec_chars(b, j, n as nat),
        None => None,
    }
}

pub open spec fn dec_name(b: Seq<u8>, i: int) -> Option<(SettingName, int)> {
    match dec_u8(b, i) {
        Some((v, j)) => match code_name(v) {
            Some(n) => Some((n, j)),
            None => None,
        },
        None => None,
    }
}

pub open spec fn dec_names_items(b: Seq<u8>, i: int, n: nat) -> Option<(Seq<SettingName>, int)>
    decreases n,
{
    if n == 0 {
        Some((Seq::empty(), i))
    } else {
        match dec_name(b, i) {
            Some((x, j)) => match dec_names_items(b, j, (n - 1) as nat) {
                Some((xs, k)) => Some((seq![x] + xs, k)),
                None => None,
            },
            None => None,
        }
    }
}

pub open spec fn dec_names(b: Seq<u8>, i: int) -> Option<(Seq<SettingName>, int)> {
    match dec_u64(b, i) {
        Some((n, j)) => dec_names_items(b, j, n as nat),
        None => None,
    }
}

pub open spec fn dec_value(b: Seq<u8>, i: int) -> Option<(SettingValueView, int)> {
    match dec_u8(b, i) {
        Some((t, j)) => if t == 1 {
            match dec_u16(b, j) {
                Some((v, k)) => Some((SettingValueView::Number(v), k)),
                None => None,
            }
        } else if t == 2 {
            match dec_decimal(b, j) {
                Some((v, k)) => Some((SettingValueView::Decimal(v), k)),
                None => None,
            }
        } else if t == 3 {
            match dec_string(b, j) {
                Some((v, k)) => Some((SettingValueView::Text(v), k)),
                None => None,
            }
        } else if t == 4 {
            match dec_bool(b, j) {
                Some((v, k)) => Some((SettingValueView::Boolean(v), k)),
                None => None,
            }
        } else {
            None
        },
        None => None,
    }
}

pub open spec fn dec_values_items(b: Seq<u8>, i: int, n: nat) -> Option<(
    Seq<SettingValueView>,
    int,
)>
    decreases n,
{
    if n == 0 {
        Some((Seq::empty(), i))
    } else {
        match dec_value(b, i) {
            Some((x, j)) => match dec_values_items(b, j, (n - 1) as nat) {
                Some((xs, k)) => Some((seq![x] + xs, k)),
                None => None,
            },
            None => None,
        }
    }
}

pub open spec fn dec_values(b: Seq<u8>, i: int) -> Option<(Seq<SettingValueView>, int)> {
    match dec_u64(b, i) {
        Some((n, j)) => dec_values_items(b, j, n as nat),
        None => None,
    }
}

pub open spec fn dec_request(b: Seq<u8>, i: int) -> Option<(RequestView, int)> {
    match dec_u8(b, i) {
        Some((t, j)) => if t == 1 {
            Some((RequestView::Ping, j))
        } else if t == 2 {
            Some((RequestView::Bye, j))
        } else if t == 3 {
            match dec_mac(b, j) {
                Some((mac, k)) => Some((RequestView::Hello { mac }, k)),
                None => None,
            }
        } else if t == 4 {
            match dec_decimal(b, j) {
                Some((temperature, k)) => match dec_u8(b, k) {
                    Some((humidity, l)) => match dec_opt_u16(b, l) {
                        Some((air_pressure, e)) => Some(
                            (RequestView::PostResults { temperature, humidity, air_pressure }, e),
                        ),
                        None => None,
                    },
                    None => None,
                },
                None => None,
            }
        } else if t == 5 {
            match dec_decimal(b, j) {
                Some((battery, k)) => match dec_string(b, k) {
                    Some((wifi_ssid, l)) => match dec_i8(b, l) {
                        Some((wifi_rssi, e)) => Some(
                            (RequestView::PostStats { battery, wifi_ssid, wifi_rssi }, e),
                        ),
                        None => None,
                    },
                    None => None,
                },
                None => None,
            }
        } else if t == 6 {
            match dec_string(b, j) {
                Some((text, k)) => Some((RequestView::SendNotification(text), k)),
                None => None,
            }
        } else if t == 7 {
            match dec_names(b, j) {
                Some((names, k)) => Some((RequestView::GetSettings(names), k)),
                None => None,
            }
        } else {
            None
        },
        None => None,
    }
}

pub open spec fn dec_response(b: Seq<u8>, i: int) -> Option<(ResponseView, int)> {
    match dec_u8(b, i) {
        Some((t, j)) => if t == 1 {
            Some((ResponseView::Pong, j))
        } else if t == 2 {
            Some((ResponseView::Okay, j))
        } else if t == 3 {
            Some((ResponseView::Reject, j))
        } else if t == 4 {
            match dec_values(b, j) {
                Some((values, k)) => Some((ResponseView::Settings(values), k)),
                None => None,
            }
        } else {
            None
        },
        None => None,
    }
}

pub open spec fn dec_msg(b: Seq<u8>, i: int) -> Option<(MessageView, int)> {
    match dec_u8(b, i) {
        Some((t, j)) => if t == 1 {
            match dec_request(b, j) {
                Some((q, k)) => Some((MessageView::Request(q), k)),
                None => None,
            }
        } else if t == 2 {
            match dec_response(b, j) {
                Some((p, k)) => Some((MessageView::Response(p), k)),
                None => None,
            }
        } else {
            None
        },
        None => None,
    }
}

/// The full decoding of a byte buffer: one message, consuming every byte.
pub open spec fn dec_message(b: Seq<u8>) -> Option<MessageView> {
    match dec_msg(b, 0) {
        Some((m, j)) => if j == b.len() {
            Some(m)
        } else {
            None
        },
        None => None,
    }
}

// ---------------------------------------------------------------------------
// Round trip: decoding inverts encoding. One lemma per component, composed
// bottom-up.
// ---------------------------------------------------------------------------
proof fn lemma_split(b: Seq<u8>, i: int, s1: Seq<u8>, s2: Seq<u8>)
    requires
        0 <= i,
        i + s1.len() + s2.len() <= b.len(),
        b.subrange(i, i + s1.len() + s2.len()) == s1 + s2,
    ensures
        b.subrange(i, i + s1.len()) == s1,
        b.subrange(i + s1.len(), i + s1.len() + s2.len()) == s2,
{
    assert(b.subrange(i, i + s1.len()) =~= s1);
    assert forall|k: int| 0 <= k < s2.len() implies b.subrange(
        i + s1.len(),
        i + s1.len() + s2.len(),
    )[k] == s2[k] by {
        assert(b.subrange(i + s1.len(), i + s1.len() + s2.len())[k] == b[i + s1.len() + k]);
        assert(b.subrange(i, i + s1.len() + s2.len())[s1.len() + k] == b[i + s1.len() + k]);
        assert((s1 + s2)[s1.len() + k] == s2[k]);
    }
    assert(b.subrange(i + s1.len(), i + s1.len() + s2.len()) =~= s2);
}

proof fn lemma_pow256_vals()
    ensures
        pow256(1) == 0x100,
        pow256(2) == 0x1_0000,
        pow256(3) == 0x100_0000,
        pow256(8) == 0x1_0000_0000_0000_0000,
{
    assert(pow256(0) == 1);
    assert(pow256(1) == 0x100);
    assert(pow256(2) == 0x1_0000);
    assert(pow256(3) == 0x100_0000);
    assert(pow256(4) == 0x1_0000_0000);
    assert(pow256(5) == 0x100_0000_0000);
    assert(pow256(6) == 0x1_0000_0000_0000);
    assert(pow256(7) == 0x100_0000_0000_0000);
    assert(pow256(8) == 0x1_0000_0000_0000_0000);
}

proof fn lemma_rt_u8(b: Seq<u8>, i: int, v: u8)
    requires
        0 <= i,
        i + 1 <= b.len(),
        b.subrange(i, i + 1) == seq![v],
    ensures
        dec_u8(b, i) == Some((v, i + 1)),
{
    assert(b[i] == b.subrange(i, i + 1)[0]);
}

proof fn lemma_rt_u16(b: Seq<u8>, i: int, v: u16)
    requires
        0 <= i,
        i + 2 <= b.len(),
        b.subrange(i, i + 2) == enc_u16(v),
    ensures
        dec_u16(b, i) == Some((v, i + 2)),
        enc_u16(v).len() == 2,
{
    lemma_pow256_vals();
    lemma_le_round_trip(v as nat, 2);
}

proof fn lemma_rt_u64(b: Seq<u8>, i: int, v: u64)
    requires
        0 <= i,
        i + 8 <= b.len(),
        b.subrange(i, i + 8) == enc_u64(v),
    ensures
        dec_u64(b, i) == Some((v, i + 8)),
        enc_u64(v).len() == 8,
{
    lemma_pow256_vals();
    lemma_le_round_trip(v as nat, 8);
}

proof fn lemma_rt_char(b: Seq<u8>, i: int, c: char)
    requires
        0 <= i,
        i + 3 <= b.len(),
        b.subrange(i, i + 3) == enc_char(c),
    ensures
        dec_char(b, i) == Some((c, i + 3)),
        enc_char(c).len() == 3,
{
    lemma_pow256_vals();
    lemma_le_round_trip(c as nat, 3);
    assert(valid_scalar(c as u32));
}

proof fn lemma_rt_bool(b: Seq<u8>, i: int, v: bool)
    requires
        0 <= i,
        i + 1 <= b.len(),
        b.subrange(i, i + 1) == enc_bool(v),
    ensures
        dec_bool(b, i) == Some((v, i + 1)),
        enc_bool(v).len() == 1,
{
    if v {
        lemma_rt_u8(b, i, 1);
    } else {
        lemma_rt_u8(b, i, 0);
    }
}

proof fn lemma_byte_i8(v: i8)
    ensures
        byte_i8(i8_byte(v)) == v,
{
}

proof fn lemma_rt_i8(b: Seq<u8>, i: int, v: i8)
    requires
        0 <= i,
        i + 1 <= b.len(),
        b.subrange(i, i + 1) == seq![i8_byte(v)],
    ensures
        dec_i8(b, i) == Some((v, i + 1)),
{
    lemma_rt_u8(b, i, i8_byte(v));
    lemma_byte_i8(v);
}

proof fn lemma_rt_decimal(b: Seq<u8>, i: int, d: Decimal)
    requires
        0 <= i,
        i + 2 <= b.len(),
        b.subrange(i, i + 2) == enc_decimal(d),
    ensures
        dec_decimal(b, i) == Some((d, i + 2)),
        enc_decimal(d).len() == 2,
{
    assert(b[i] == b.subrange(i, i + 2)[0]);
    assert(b[i + 1] == b.subrange(i, i + 2)[1]);
    lemma_byte_i8(d.0);
}

proof fn lemma_rt_mac(b: Seq<u8>, i: int, m: Mac)
    requires
        0 <= i,
        i + 6 <= b.len(),
        b.subrange(i, i + 6) == enc_mac(m),
    ensures
        dec_mac(b, i) == Some((m, i + 6)),
        enc_mac(m).len() == 6,
{
    assert forall|k: int| 0 <= k < 6 implies b[i + k] == enc_mac(m)[k] by {
        assert(b.subrange(i, i + 6)[k] == b[i + k]);
    }
}

proof fn lemma_rt_opt_u16(b: Seq<u8>, i: int, v: Option<u16>)
    requires
        0 <= i,
        i + enc_opt_u16(v).len() <= b.len(),
        b.subrange(i, i + enc_opt_u16(v).len()) == enc_opt_u16(v),
    ensures
        dec_opt_u16(b, i) == Some((v, i + enc_opt_u16(v).len())),
{
    match v {
        None => {
            lemma_rt_u8(b, i, 0);
        },
        Some(x) => {
            lemma_le_bytes_len(x as nat, 2);
            lemma_split(b, i, seq![1u8], enc_u16(x));
            lemma_rt_u8(b, i, 1);
            lemma_rt_u16(b, i + 1, x);
        },
    }
}

proof fn lemma_enc_chars_len(s: Seq<char>)
    ensures
        enc_chars(s).len() == 3 * s.len(),
    decreases s.len(),
{
    if s.len() > 0 {
        lemma_le_bytes_len(s[0] as nat, 3);
        lemma_enc_chars_len(s.drop_first());
    }
}

proof fn lemma_rt_chars(b: Seq<u8>, i: int, s: Seq<char>)
    requires
        0 <= i,
        i + enc_chars(s).len() <= b.len(),
        b.subrange(i, i + enc_chars(s).len()) == enc_chars(s),
    ensures
        dec_chars(b, i, s.len()) == Some((s, i + enc_chars(s).len())),
    decreases s.len(),
{
    lemma_enc_chars_len(s);
    if s.len() > 0 {
        let rest = s.drop_first();
        lemma_enc_chars_len(rest);
        lemma_le_bytes_len(s[0] as nat, 3);
        lemma_split(b, i, enc_char(s[0]), enc_chars(rest));
        lemma_rt_char(b, i, s[0]);
        lemma_rt_chars(b, i + 3, rest);
        assert(seq![s[0]] + rest =~= s);
    }
}

proof fn lemma_rt_string(b: Seq<u8>, i: int, s: Seq<char>)
    requires
        0 <= i,
        wf_len(s.len()),
        i + enc_string(s).len() <= b.len(),
        b.subrange(i, i + enc_string(s).len()) == enc_string(s),
    ensures
        dec_string(b, i) == Some((s, i + enc_string(s).len())),
{
    lemma_le_bytes_len(s.len(), 8);
    lemma_enc_chars_len(s);
    lemma_split(b, i, enc_len(s.len()), enc_chars(s));
    assert(enc_len(s.len()) =~= enc_u64(s.len() as u64));
    lemma_rt_u64(b, i, s.len() as u64);
    lemma_rt_chars(b, i + 8, s);
}

proof fn lemma_rt_name(b: Seq<u8>, i: int, n: SettingName)
    requires
        0 <= i,
        i + 1 <= b.len(),
        b.subrange(i, i + 1) == seq![name_code(n)],
    ensures
        dec_name(b, i) == Some((n, i + 1)),
{
    lemma_rt_u8(b, i, name_code(n));
}

proof fn lemma_enc_names_items_len(s: Seq<SettingName>)
    ensures
        enc_names_items(s).len() == s.len(),
    decreases s.len(),
{
    if s.len() > 0 {
        lemma_enc_names_items_len(s.drop_first());
    }
}

proof fn lemma_rt_names_items(b: Seq<u8>, i: int, s: Seq<SettingName>)
    requires
        0 <= i,
        i + enc_names_items(s).len() <= b.len(),
        b.subrange(i, i + enc_names_items(s).len()) == enc_names_items(s),
    ensures
        dec_names_items(b, i, s.len()) == Some((s, i + enc_names_items(s).len())),
    decreases s.len(),
{
    lemma_enc_names_items_len(s);
    if s.len() > 0 {
        let rest = s.drop_first();
        lemma_enc_names_items_len(rest);
        lemma_split(b, i, seq![name_code(s[0])], enc_names_items(rest));
        lemma_rt_name(b, i, s[0]);
        lemma_rt_names_items(b, i + 1, rest);
        assert(seq![s[0]] + rest =~= s);
    }
}

proof fn lemma_rt_names(b: Seq<u8>, i: int, s: Seq<SettingName>)
    requires
        0 <= i,
        wf_len(s.len()),
        i + enc_names(s).len() <= b.len(),
        b.subrange(i, i + enc_names(s).len()) == enc_names(s),
    ensures
        dec_names(b, i) == Some((s, i + enc_names(s).len())),
{
    lemma_le_bytes_len(s.len(), 8);
    lemma_enc_names_items_len(s);
    lemma_split(b, i, enc_len(s.len()), enc_names_items(s));
    assert(enc_len(s.len()) =~= enc_u64(s.len() as u64));
    lemma_rt_u64(b, i, s.len() as u64);
    lemma_rt_names_items(b, i + 8, s);
}

proof fn lemma_rt_value(b: Seq<u8>, i: int, v: SettingValueView)
    requires
        0 <= i,
        wf_value(v),
        i + enc_value(v).len() <= b.len(),
        b.subrange(i, i + enc_value(v).len()) == enc_value(v),
    ensures
        dec_value(b, i) == Some((v, i + enc_value(v).len())),
{
    match v {
        SettingValueView::Number(x) => {
            lemma_le_bytes_len(x as nat, 2);
            lemma_split(b, i, seq![1u8], enc_u16(x));
            lemma_rt_u8(b, i, 1);
            lemma_rt_u16(b, i + 1, x);
        },
        SettingValueView::Decimal(d) => {
            lemma_split(b, i, seq![2u8], enc_decimal(d));
            lemma_rt_u8(b, i, 2);
            lemma_rt_decimal(b, i + 1, d);
        },
        SettingValueView::Text(t) => {
            lemma_le_bytes_len(t.len(), 8);
            lemma_enc_chars_len(t);
            lemma_split(b, i, seq![3u8], enc_string(t));
            lemma_rt_u8(b, i, 3);
            lemma_rt_string(b, i + 1, t);
        },
        SettingValueView::Boolean(x) => {
            lemma_split(b, i, seq![4u8], enc_bool(x));
            lemma_rt_u8(b, i, 4);
            lemma_rt_bool(b, i + 1, x);
        },
    }
}

proof fn lemma_rt_values_items(b: Seq<u8>, i: int, s: Seq<SettingValueView>)
    requires
        0 <= i,
        forall|k: int| 0 <= k < s.len() ==> wf_value(#[trigger] s[k]),
        i + enc_values_items(s).len() <= b.len(),
        b.subrange(i, i + enc_values_items(s).len()) == enc_values_items(s),
    ensures
        dec_values_items(b, i, s.len()) == Some((s, i + enc_values_items(s).len())),
    decreases s.len(),
{
    if s.len() > 0 {
        let rest = s.drop_first();
        let l0 = enc_value(s[0]).len() as int;
        lemma_split(b, i, enc_value(s[0]), enc_values_items(rest));
        lemma_rt_value(b, i, s[0]);
        lemma_rt_values_items(b, i + l0, rest);
        assert(seq![s[0]] + rest =~= s);
    }
}

proof fn lemma_rt_values(b: Seq<u8>, i: int, s: Seq<SettingValueView>)
    requires
        0 <= i,
        wf_len(s.len()),
        forall|k: int| 0 <= k < s.len() ==> wf_value(#[trigger] s[k]),
        i + enc_values(s).len() <= b.len(),
        b.subrange(i, i + enc_values(s).len()) == enc_values(s),
    ensures
        dec_values(b, i) == Some((s, i + enc_values(s).len())),
{
    lemma_le_bytes_len(s.len(), 8);
    lemma_split(b, i, enc_len(s.len()), enc_values_items(s));
    assert(enc_len(s.len()) =~= enc_u64(s.len() as u64));
    lemma_rt_u64(b, i, s.len() as u64);
    lemma_rt_values_items(b, i + 8, s);
}

proof fn lemma_rt_request(b: Seq<u8>, i: int, q: RequestView)
    requires
        0 <= i,
        wf_request(q),
        i + enc_request(q).len() <= b.len(),
        b.subrange(i, i + enc_request(q).len()) == enc_request(q),
    ensures
        dec_request(b, i) == Some((q, i + enc_request(q).len())),
{
    match q {
        RequestView::Ping => {
            lemma_rt_u8(b, i, 1);
        },
        RequestView::Bye => {
            lemma_rt_u8(b, i, 2);
        },
        RequestView::Hello { mac } => {
            lemma_split(b, i, seq![3u8], enc_mac(mac));
            lemma_rt_u8(b, i, 3);
            lemma_rt_mac(b, i + 1, mac);
        },
        RequestView::PostResults { temperature, humidity, air_pressure } => {
            let body = enc_decimal(temperature) + seq![humidity] + enc_opt_u16(air_pressure);
            assert(enc_request(q) =~= seq![4u8] + body);
            lemma_split(b, i, seq![4u8], body);
            lemma_rt_u8(b, i, 4);
            assert(body =~= enc_decimal(temperature) + (seq![humidity] + enc_opt_u16(
                air_pressure,
            )));
            lemma_split(
                b,
                i + 1,
                enc_decimal(temperature),
                seq![humidity] + enc_opt_u16(air_pressure),
            );
            lemma_rt_decimal(b, i + 1, temperature);
            lemma_split(b, i + 3, seq![humidity], enc_opt_u16(air_pressure));
            lemma_rt_u8(b, i + 3, humidity);
            lemma_rt_opt_u16(b, i + 4, air_pressure);
        },
        RequestView::PostStats { battery, wifi_ssid, wifi_rssi } => {
            lemma_le_bytes_len(wifi_ssid.len(), 8);
            lemma_enc_chars_len(wifi_ssid);
            let body = enc_decimal(battery) + enc_string(wifi_ssid) + seq![i8_byte(wifi_rssi)];
            assert(enc_request(q) =~= seq![5u8] + body);
            lemma_split(b, i, seq![5u8], body);
            lemma_rt_u8(b, i, 5);
            assert(body =~= enc_decimal(battery) + (enc_string(wifi_ssid) + seq![
                i8_byte(wifi_rssi),
            ]));
            lemma_split(
                b,
                i + 1,
                enc_decimal(battery),
                enc_string(wifi_ssid) + seq![i8_byte(wifi_rssi)],
            );
            lemma_rt_decimal(b, i + 1, battery);
            lemma_split(b, i + 3, enc_string(wifi_ssid), seq![i8_byte(wifi_rssi)]);
            lemma_rt_string(b, i + 3, wifi_ssid);
            let l = i + 3 + enc_string(wifi_ssid).len() as int;
            lemma_rt_i8(b, l, wifi_rssi);
        },
        RequestView::SendNotification(text) => {
            lemma_le_bytes_len(text.len(), 8);
            lemma_enc_chars_len(text);
            lemma_split(b, i, seq![6u8], enc_string(text));
            lemma_rt_u8(b, i, 6);
            lemma_rt_string(b, i + 1, text);
        },
        RequestView::GetSettings(names) => {
            lemma_le_bytes_len(names.len(), 8);
            lemma_enc_names_items_len(names);
            lemma_split(b, i, seq![7u8], enc_names(names));
            lemma_rt_u8(b, i, 7);
            lemma_rt_names(b, i + 1, names);
        },
    }
}

proof fn lemma_rt_response(b: Seq<u8>, i: int, p: ResponseView)
    requires
        0 <= i,
        wf_response(p),
        i + enc_response(p).len() <= b.len(),
        b.subrange(i, i + enc_response(p).len()) == enc_response(p),
    ensures
        dec_response(b, i) == Some((p, i + enc_response(p).len())),
{
    match p {
        ResponseView::Pong => {
            lemma_rt_u8(b, i, 1);
        },
        ResponseView::Okay => {
            lemma_rt_u8(b, i, 2);
        },
        ResponseView::Reject => {
            lemma_rt_u8(b, i, 3);
        },
        ResponseView::Settings(values) => {
            lemma_split(b, i, seq![4u8], enc_values(values));
            lemma_rt_u8(b, i, 4);
            lemma_rt_values(b, i + 1, values);
        },
    }
}

proof fn lemma_rt_msg(b: Seq<u8>, i: int, m: MessageView)
    requires
        0 <= i,
        wf_message(m),
        i + enc_message(m).len() <= b.len(),
        b.subrange(i, i + enc_message(m).len()) == enc_message(m),
    ensures
        dec_msg(b, i) == Some((m, i + enc_message(m).len())),
{
    match m {
        MessageView::Request(q) => {
            lemma_split(b, i, seq![1u8], enc_request(q));
            lemma_rt_u8(b, i, 1);
            lemma_rt_request(b, i + 1, q);
        },
        MessageView::Response(p) => {
            lemma_split(b, i, seq![2u8], enc_response(p));
            lemma_rt_u8(b, i, 2);
            lemma_rt_response(b, i + 1, p);
        },
    }
}

// ---------------------------------------------------------------------------
// Executable encoder
// ---------------------------------------------------------------------------
proof fn lemma_enc_chars_push(s: Seq<char>, c: char)
    ensures
        enc_chars(s.push(c)) == enc_chars(s) + enc_char(c),
    decreases s.len(),
{
    if s.len() == 0 {
        assert(s.push(c).len() == 1);
        assert(s.push(c)[0] == c);
        assert(s.push(c).drop_first() =~= Seq::<char>::empty());
        assert(enc_chars(s.push(c)) == enc_char(c) + enc_chars(Seq::<char>::empty()));
        assert(enc_chars(s.push(c)) =~= enc_chars(s) + enc_char(c));
    } else {
        lemma_enc_chars_push(s.drop_first(), c);
        assert(s.push(c).len() == s.len() + 1);
        assert(s.push(c)[0] == s[0]);
        assert(s.push(c).drop_first() =~= s.drop_first().push(c));
        assert(enc_chars(s.push(c)) == enc_char(s[0]) + enc_chars(s.drop_first().push(c)));
        assert(enc_chars(s.push(c)) == enc_char(s[0]) + (enc_chars(s.drop_first()) + enc_char(c)));
        assert(enc_chars(s.push(c)) =~= enc_chars(s) + enc_char(c));
    }
}

proof fn lemma_enc_names_push(s: Seq<SettingName>, x: SettingName)
    ensures
        enc_names_items(s.push(x)) == enc_names_items(s) + seq![name_code(x)],
    decreases s.len(),
{
    if s.len() == 0 {
        assert(s.push(x).len() == 1);
        assert(s.push(x)[0] == x);
        assert(s.push(x).drop_first() =~= Seq::<SettingName>::empty());
        assert(enc_names_items(s.push(x)) == seq![name_code(x)] + enc_names_items(
            Seq::<SettingName>::empty(),
        ));
        assert(enc_names_items(s.push(x)) =~= enc_names_items(s) + seq![name_code(x)]);
    } else {
        lemma_enc_names_push(s.drop_first(), x);
        assert(s.push(x).len() == s.len() + 1);
        assert(s.push(x)[0] == s[0]);
        assert(s.push(x).drop_first() =~= s.drop_first().push(x));
        assert(enc_names_items(s.push(x)) == seq![name_code(s[0])] + enc_names_items(
            s.drop_first().push(x),
        ));
        assert(enc_names_items(s.push(x)) == seq![name_code(s[0])] + (enc_names_items(
            s.drop_first(),
        ) + seq![name_code(x)]));
        assert(enc_names_items(s.push(x)) =~= enc_names_items(s) + seq![name_code(x)]);
    }
}

proof fn lemma_enc_values_push(s: Seq<SettingValueView>, x: SettingValueView)
    ensures
        enc_values_items(s.push(x)) == enc_values_items(s) + enc_value(x),
    decreases s.len(),
{
    if s.len() == 0 {
        assert(s.push(x).len() == 1);
        assert(s.push(x)[0] == x);
        assert(s.push(x).drop_first() =~= Seq::<SettingValueView>::empty());
        assert(enc_values_items(s.push(x)) == enc_value(x) + enc_values_items(
            Seq::<SettingValueView>::empty(),
        ));
        assert(enc_values_items(s.push(x)) =~= enc_values_items(s) + enc_value(x));
    } else {
        lemma_enc_values_push(s.drop_first(), x);
        assert(s.push(x).len() == s.len() + 1);
        assert(s.push(x)[0] == s[0]);
        assert(s.push(x).drop_first() =~= s.drop_first().push(x));
        assert(enc_values_items(s.push(x)) == enc_value(s[0]) + enc_values_items(
            s.drop_first().push(x),
        ));
        assert(enc_values_items(s.push(x)) == enc_value(s[0]) + (enc_values_items(s.drop_first())
            + enc_value(x)));
        assert(enc_values_items(s.push(x)) =~= enc_values_items(s) + enc_value(x));
    }
}

/// Appends `v` in base 256, least significant byte first, in `w` bytes.
fn put_le(out: &mut Vec<u8>, v: u64, w: usize)
    ensures
        final(out)@ == old(out)@ + le_bytes(v as nat, w as nat),
{
    let mut x = v;
    let mut k: usize = 0;
    while k < w
        invariant
            k <= w,
            old(out)@ + le_bytes(v as nat, w as nat) =~= out@ + le_bytes(x as nat, (w - k) as nat),
        decreases w - k,
    {
        let ghost x0 = x as nat;
        let ghost out0 = out@;
        out.push((x % 256) as u8);
        x = x / 256;
        k = k + 1;
        proof {
            assert(le_bytes(x0, (w - k + 1) as nat) =~= seq![(x0 % 256) as u8] + le_bytes(
                x0 / 256,
                (w - k) as nat,
            ));
            assert(out@ =~= out0 + seq![(x0 % 256) as u8]);
            assert(old(out)@ + le_bytes(v as nat, w as nat) =~= out@ + le_bytes(
                x as nat,
                (w - k) as nat,
            ));
        }
    }
    assert(le_bytes(x as nat, 0) =~= Seq::<u8>::empty());
    assert(out@ =~= old(out)@ + le_bytes(v as nat, w as nat));
}

fn put_u8(out: &mut Vec<u8>, v: u8)
    ensures
        final(out)@ == old(out)@ + seq![v],
{
    out.push(v);
    assert(out@ =~= old(out)@ + seq![v]);
}

fn put_u16(out: &mut Vec<u8>, v: u16)
    ensures
        final(out)@ == old(out)@ + enc_u16(v),
{
    put_le(out, v as u64, 2);
}

fn put_len(out: &mut Vec<u8>, n: usize)
    ensures
        final(out)@ == old(out)@ + enc_len(n as nat),
{
    put_le(out, n as u64, 8);
}

fn put_char(out: &mut Vec<u8>, c: char)
    ensures
        final(out)@ == old(out)@ + enc_char(c),
{
    put_le(out, c as u64, 3);
}

fn put_bool(out: &mut Vec<u8>, v: bool)
    ensures
        final(out)@ == old(out)@ + enc_bool(v),
{
    if v {
        put_u8(out, 1);
    } else {
        put_u8(out, 0);
    }
}

fn put_i8(out: &mut Vec<u8>, v: i8)
    ensures
        final(out)@ == old(out)@ + seq![i8_byte(v)],
{
    let b: u8 = if v >= 0 {
        v as u8
    } else {
        ((v as i16) + 256) as u8
    };
    put_u8(out, b);
}

fn put_decimal(out: &mut Vec<u8>, d: &Decimal)
    ensures
        final(out)@ == old(out)@ + enc_decimal(*d),
{
    put_i8(out, d.0);
    put_u8(out, d.1);
    assert(out@ =~= old(out)@ + enc_decimal(*d));
}

fn put_mac(out: &mut Vec<u8>, m: &Mac)
    ensures
        final(out)@ == old(out)@ + enc_mac(*m),
{
    put_u8(out, m.0);
    put_u8(out, m.1);
    put_u8(out, m.2);
    put_u8(out, m.3);
    put_u8(out, m.4);
    put_u8(out, m.5);
    assert(out@ =~= old(out)@ + enc_mac(*m));
}

fn put_opt_u16(out: &mut Vec<u8>, v: &Option<u16>)
    ensures
        final(out)@ == old(out)@ + enc_opt_u16(*v),
{
    match v {
        None => {
            put_u8(out, 0);
        },
        Some(x) => {
            put_u8(out, 1);
            put_u16(out, *x);
            assert(out@ =~= old(out)@ + enc_opt_u16(*v));
        },
    }
}

fn put_string(out: &mut Vec<u8>, s: &str)
    ensures
        final(out)@ == old(out)@ + enc_string(s@),
{
    let n = s.unicode_len();
    put_len(out, n);
    let mut i: usize = 0;
    while i < n
        invariant
            n == s@.len(),
            i <= n,
            out@ =~= old(out)@ + enc_len(s@.len()) + enc_chars(s@.take(i as int)),
        decreases n - i,
    {
        let c = s.get_char(i);
        let ghost taken = s@.take(i as int);
        put_char(out, c);
        proof {
            lemma_enc_chars_push(taken, c);
            assert(s@.take(i + 1) =~= taken.push(c));
        }
        i = i + 1;
        assert(out@ =~= old(out)@ + enc_len(s@.len()) + enc_chars(s@.take(i as int)));
    }
    assert(s@.take(n as int) =~= s@);
    assert(out@ =~= old(out)@ + enc_string(s@));
}

fn name_code_exec(n: &SettingName) -> (r: u8)
    ensures
        r == name_code(*n),
{
    match n {
        SettingName::BatteryIgnore => 0,
        SettingName::Ota => 1,
        SettingName::SleepTime => 2,
        SettingName::Sbop => 3,
        SettingName::MuteNotifications => 4,
    }
}

fn put_names(out: &mut Vec<u8>, names: &Vec<SettingName>)
    ensures
        final(out)@ == old(out)@ + enc_names(names@),
{
    put_len(out, names.len());
    let mut i: usize = 0;
    while i < names.len()
        invariant
            i <= names@.len(),
            out@ =~= old(out)@ + enc_len(names@.len()) + enc_names_items(names@.take(i as int)),
        decreases names@.len() - i,
    {
        let ghost taken = names@.take(i as int);
        let code = name_code_exec(&names[i]);
        put_u8(out, code);
        proof {
            lemma_enc_names_push(taken, names@[i as int]);
            assert(names@.take(i + 1) =~= taken.push(names@[i as int]));
        }
        i = i + 1;
        assert(out@ =~= old(out)@ + enc_len(names@.len()) + enc_names_items(
            names@.take(i as int),
        ));
    }
    assert(names@.take(names@.len() as int) =~= names@);
    assert(out@ =~= old(out)@ + enc_names(names@));
}

fn put_value(out: &mut Vec<u8>, v: &SettingValue)
    ensures
        final(out)@ == old(out)@ + enc_value(v@),
{
    match v {
        SettingValue::Number(x) => {
            put_u8(out, 1);
            put_u16(out, *x);
        },
        SettingValue::Decimal(d) => {
            put_u8(out, 2);
            put_decimal(out, d);
        },
        SettingValue::Text(t) => {
            put_u8(out, 3);
            put_string(out, t.as_str());
        },
        SettingValue::Boolean(x) => {
            put_u8(out, 4);
            put_bool(out, *x);
        },
    }
    assert(out@ =~= old(out)@ + enc_value(v@));
}

fn put_values(out: &mut Vec<u8>, values: &Vec<SettingValue>)
    ensures
        final(out)@ == old(out)@ + enc_values(values@.map_values(|v: SettingValue| v@)),
{
    let ghost vs = values@.map_values(|v: SettingValue| v@);
    assert(vs.len() == values@.len());
    put_len(out, values.len());
    let mut i: usize = 0;
    while i < values.len()
        invariant
            i <= values@.len(),
            vs == values@.map_values(|v: SettingValue| v@),
            vs.len() == values@.len(),
            out@ =~= old(out)@ + enc_len(vs.len()) + enc_values_items(vs.take(i as int)),
        decreases values@.len() - i,
    {
        let ghost taken = vs.take(i as int);
        put_value(out, &values[i]);
        proof {
            lemma_enc_values_push(taken, vs[i as int]);
            assert(vs.take(i + 1) =~= taken.push(vs[i as int]));
        }
        i = i + 1;
        assert(out@ =~= old(out)@ + enc_len(vs.len()) + enc_values_items(vs.take(i as int)));
    }
    assert(vs.take(vs.len() as int) =~= vs);
    assert(out@ =~= old(out)@ + enc_values(vs));
}

fn put_request(out: &mut Vec<u8>, q: &Request)
    ensures
        final(out)@ == old(out)@ + enc_request(q@),
{
    match q {
        Request::Ping => {
            put_u8(out, 1);
        },
        Request::Bye => {
            put_u8(out, 2);
        },
        Request::Hello { mac } => {
            put_u8(out, 3);
            put_mac(out, mac);
        },
        Request::PostResults { temperature, humidity, air_pressure } => {
            put_u8(out, 4);
            put_decimal(out, temperature);
            put_u8(out, *humidity);
            put_opt_u16(out, air_pressure);
        },
        Request::PostStats { battery, wifi_ssid, wifi_rssi } => {
            put_u8(out, 5);
            put_decimal(out, battery);
            put_string(out, wifi_ssid.as_str());
            put_i8(out, *wifi_rssi);
        },
        Request::SendNotification(text) => {
            put_u8(out, 6);
            put_string(out, text.as_str());
        },
        Request::GetSettings(names) => {
            put_u8(out, 7);
            put_names(out, names);
        },
    }
    assert(out@ =~= old(out)@ + enc_request(q@));
}

fn put_response(out: &mut Vec<u8>, p: &Response)
    ensures
        final(out)@ == old(out)@ + enc_response(p@),
{
    match p {
        Response::Pong => {
            put_u8(out, 1);
        },
        Response::Okay => {
            put_u8(out, 2);
        },
        Response::Reject => {
            put_u8(out, 3);
        },
        Response::Settings(values) => {
            put_u8(out, 4);
            put_values(out, values);
        },
    }
    assert(out@ =~= old(out)@ + enc_response(p@));
}

/// Serialize a message into its wire bytes.
pub fn encode_message(m: &Message) -> (r: Vec<u8>)
    ensures
        r@ == enc_message(m@),
{
    let mut out: Vec<u8> = Vec::new();
    match m {
        Message::Request(q) => {
            put_u8(&mut out, 1);
            put_request(&mut out, q);
        },
        Message::Response(p) => {
            put_u8(&mut out, 2);
            put_response(&mut out, p);
        },
    }
    assert(out@ =~= enc_message(m@));
    out
}

// ---------------------------------------------------------------------------
// Executable decoder
// ---------------------------------------------------------------------------
proof fn lemma_pow256_mono(a: nat, b: nat)
    requires
        a <= b,
    ensures
        pow256(a) <= pow256(b),
    decreases b,
{
    if a < b {
        lemma_pow256_mono(a, (b - 1) as nat);
        assert(pow256(b) == 256 * pow256((b - 1) as nat));
    }
}

proof fn lemma_le_val_bound(b: Seq<u8>)
    ensures
        le_val(b) < pow256(b.len()),
    decreases b.len(),
{
    if b.len() > 0 {
        lemma_le_val_bound(b.drop_first());
        assert(pow256(b.len()) == 256 * pow256((b.len() - 1) as nat));
    }
}

/// Reads `w` bytes little-endian starting at `i`.
#[verifier::loop_isolation(false)]
#[verifier::loop_isolation(false)]
fn get_le(b: &[u8], i: usize, w: usize) -> (r: Option<(u64, usize)>)
    requires
        i <= b@.len(),
        1 <= w <= 8,
    ensures
        match r {
            Some((v, j)) => {
                &&& i + w <= b@.len()
                &&& v as nat == le_val(b@.subrange(i as int, i + w))
                &&& j == i + w
            },
            None => i + w > b@.len(),
        },
{
    if b.len() - i < w {
        return None;
    }
    proof {
        lemma_pow256_vals();
    }
    let mut val: u64 = 0;
    let mut k: usize = w;
    while k > 0
        invariant
            k <= w <= 8,
            i + w <= b@.len(),
            val as nat == le_val(b@.subrange(i + k, i + w)),
            val < pow256((w - k) as nat),
        decreases k,
    {
        let ghost val0 = val as nat;
        proof {
            lemma_pow256_mono((w - k) as nat, 7);
            lemma_pow256_vals();
        }
        let byte = b[i + k - 1];
        val = val * 256 + (byte as u64);
        k = k - 1;
        proof {
            let s = b@.subrange(i + k, i + w);
            assert(s[0] == b@[i + k]);
            assert(s.drop_first() =~= b@.subrange(i + k + 1, i + w));
            assert(le_val(s) == (b@[i + k] + 256 * le_val(s.drop_first())) as nat);
            assert(pow256((w - k) as nat) == 256 * pow256((w - k - 1) as nat));
        }
    }
    proof {
        assert(b@.subrange(i as int, i + w) == b@.subrange(i + k, i + w));
    }
    Some((val, i + w))
}

fn get_u8(b: &[u8], i: usize) -> (r: Option<(u8, usize)>)
    requires
        i <= b@.len(),
    ensures
        match r {
            Some((v, j)) => dec_u8(b@, i as int) == Some((v, j as int)) && j <= b@.len(),
            None => dec_u8(b@, i as int) is None,
        },
{
    if i < b.len() {
        Some((b[i], i + 1))
    } else {
        None
    }
}

fn get_u16(b: &[u8], i: usize) -> (r: Option<(u16, usize)>)
    requires
        i <= b@.len(),
    ensures
        match r {
            Some((v, j)) => dec_u16(b@, i as int) == Some((v, j as int)) && j <= b@.len(),
            None => dec_u16(b@, i as int) is None,
        },
{
    match get_le(b, i, 2) {
        Some((v, j)) => {
            proof {
                lemma_le_val_bound(b@.subrange(i as int, i + 2));
                lemma_pow256_vals();
            }
            Some(((v as u16), j))
        },
        None => None,
    }
}

fn get_u64(b: &[u8], i: usize) -> (r: Option<(u64, usize)>)
    requires
        i <= b@.len(),
    ensures
        match r {
            Some((v, j)) => dec_u64(b@, i as int) == Some((v, j as int)) && j <= b@.len(),
            None => dec_u64(b@, i as int) is None,
        },
{
    match get_le(b, i, 8) {
        Some((v, j)) => {
            proof {
                lemma_le_val_bound(b@.subrange(i as int, i + 8));
                lemma_pow256_vals();
            }
            Some((v, j))
        },
        None => None,
    }
}

fn get_char(b: &[u8], i: usize) -> (r: Option<(char, usize)>)
    requires
        i <= b@.len(),
    ensures
        match r {
            Some((c, j)) => dec_char(b@, i as int) == Some((c, j as int)) && j <= b@.len(),
            None => dec_char(b@, i as int) is None,
        },
{
    match get_le(b, i, 3) {
        Some((v, j)) => {
            proof {
                lemma_le_val_bound(b@.subrange(i as int, i + 3));
                lemma_pow256_vals();
            }
            let w = v as u32;
            match crate::text::char_from_u32(w) {
                Some(c) => {
                    proof {
                        assert(c == (le_val(b@.subrange(i as int, i + 3)) as u32) as char);
                    }
                    Some((c, j))
                },
                None => None,
            }
        },
        None => None,
    }
}

fn get_bool(b: &[u8], i: usize) -> (r: Option<(bool, usize)>)
    requires
        i <= b@.len(),
    ensures
        match r {
            Some((v, j)) => dec_bool(b@, i as int) == Some((v, j as int)) && j <= b@.len(),
            None => dec_bool(b@, i as int) is None,
        },
{
    match get_u8(b, i) {
        Some((v, j)) => if v == 0 {
            Some((false, j))
        } else if v == 1 {
            Some((true, j))
        } else {
            None
        },
        None => None,
    }
}

fn byte_i8_exec(v: u8) -> (r: i8)
    ensures
        r == byte_i8(v),
{
    if v < 128 {
        v as i8
    } else {
        ((v as i16) - 256) as i8
    }
}

fn get_i8(b: &[u8], i: usize) -> (r: Option<(i8, usize)>)
    requires
        i <= b@.len(),
    ensures
        match r {
            Some((v, j)) => dec_i8(b@, i as int) == Some((v, j as int)) && j <= b@.len(),
            None => dec_i8(b@, i as int) is None,
        },
{
    match get_u8(b, i) {
        Some((v, j)) => Some((byte_i8_exec(v), j)),
        None => None,
    }
}

fn get_decimal(b: &[u8], i: usize) -> (r: Option<(Decimal, usize)>)
    requires
        i <= b@.len(),
    ensures
        match r {
            Some((v, j)) => dec_decimal(b@, i as int) == Some((v, j as int)) && j <= b@.len(),
            None => dec_decimal(b@, i as int) is None,
        },
{
    if b.len() - i >= 2 {
        Some((Decimal(byte_i8_exec(b[i]), b[i + 1]), i + 2))
    } else {
        None
    }
}

fn get_mac(b: &[u8], i: usize) -> (r: Option<(Mac, usize)>)
    requires
        i <= b@.len(),
    ensures
        match r {
            Some((v, j)) => dec_mac(b@, i as int) == Some((v, j as int)) && j <= b@.len(),
            None => dec_mac(b@, i as int) is None,
        },
{
    if b.len() - i >= 6 {
        Some((Mac(b[i], b[i + 1], b[i + 2], b[i + 3], b[i + 4], b[i + 5]), i + 6))
    } else {
        None
    }
}

fn get_opt_u16(b: &[u8], i: usize) -> (r: Option<(Option<u16>, usize)>)
    requires
        i <= b@.len(),
    ensures
        match r {
            Some((v, j)) => dec_opt_u16(b@, i as int) == Some((v, j as int)) && j <= b@.len(),
            None => dec_opt_u16(b@, i as int) is None,
        },
{
    match get_u8(b, i) {
        Some((t, j)) => if t == 0 {
            Some((None, j))
        } else if t == 1 {
            match get_u16(b, j) {
                Some((v, k)) => Some((Some(v), k)),
                None => None,
            }
        } else {
            None
        },
        None => None,
    }
}

#[verifier::loop_isolation(false)]
fn get_string(b: &[u8], i: usize) -> (r: Option<(String, usize)>)
    requires
        i <= b@.len(),
    ensures
        match r {
            Some((s, j)) => dec_string(b@, i as int) == Some((s@, j as int)) && j <= b@.len(),
            None => dec_string(b@, i as int) is None,
        },
{
    let (n, start) = match get_u64(b, i) {
        Some(p) => p,
        None => { return None },
    };
    let ghost start0 = start as int;
    let mut s = String::new();
    let mut pos = start;
    let mut k: u64 = 0;
    while k < n
        invariant
            k <= n,
            pos <= b@.len(),
            dec_chars(b@, start0, n as nat) == (match dec_chars(
                b@,
                pos as int,
                (n - k) as nat,
            ) {
                Some((cs, e)) => Some((s@ + cs, e)),
                None => None::<(Seq<char>, int)>,
            }),
        decreases n - k,
    {
        let ghost acc0 = s@;
        let ghost rem0 = (n - k) as nat;
        let ghost pos0 = pos as int;
        match get_char(b, pos) {
            Some((c, p2)) => {
                crate::text::push_char(&mut s, c);
                pos = p2;
                k = k + 1;
                proof {
                    let inner = dec_chars(b@, pos as int, (n - k) as nat);
                    match inner {
                        Some((cs2, e2)) => {
                            assert(dec_chars(b@, pos0, rem0) == Some((seq![c] + cs2, e2)));
                            assert(acc0 + (seq![c] + cs2) =~= acc0.push(c) + cs2);
                        },
                        None => {
                            assert(dec_chars(b@, pos0, rem0) is None);
                        },
                    }
                }
            },
            None => {
                proof {
                    assert(dec_chars(b@, pos0, rem0) is None);
                }
                return None;
            },
        }
    }
    proof {
        assert(dec_chars(b@, pos as int, 0) == Some((Seq::<char>::empty(), pos as int)));
        assert(s@ + Seq::<char>::empty() =~= s@);
    }
    Some((s, pos))
}

fn code_name_exec(v: u8) -> (r: Option<SettingName>)
    ensures
        r == code_name(v),
{
    if v == 0 {
        Some(SettingName::BatteryIgnore)
    } else if v == 1 {
        Some(SettingName::Ota)
    } else if v == 2 {
        Some(SettingName::SleepTime)
    } else if v == 3 {
        Some(SettingName::Sbop)
    } else if v == 4 {
        Some(SettingName::MuteNotifications)
    } else {
        None
    }
}

fn get_name(b: &[u8], i: usize) -> (r: Option<(SettingName, usize)>)
    requires
        i <= b@.len(),
    ensures
        match r {
            Some((v, j)) => dec_name(b@, i as int) == Some((v, j as int)) && j <= b@.len(),
            None => dec_name(b@, i as int) is None,
        },
{
    match get_u8(b, i) {
        Some((v, j)) => match code_name_exec(v) {
            Some(x) => Some((x, j)),
            None => None,
        },
        None => None,
    }
}

#[verifier::loop_isolation(false)]
fn get_names(b: &[u8], i: usize) -> (r: Option<(Vec<SettingName>, usize)>)
    requires
        i <= b@.len(),
    ensures
        match r {
            Some((v, j)) => dec_names(b@, i as int) == Some((v@, j as int)) && j <= b@.len(),
            None => dec_names(b@, i as int) is None,
        },
{
    let (n, start) = match get_u64(b, i) {
        Some(p) => p,
        None => { return None },
    };
    let ghost start0 = start as int;
    let mut acc: Vec<SettingName> = Vec::new();
    let mut pos = start;
    let mut k: u64 = 0;
    while k < n
        invariant
            k <= n,
            pos <= b@.len(),
            dec_names_items(b@, start0, n as nat) == (match dec_names_items(
                b@,
                pos as int,
                (n - k) as nat,
            ) {
                Some((xs, e)) => Some((acc@ + xs, e)),
                None => None::<(Seq<SettingName>, int)>,
            }),
        decreases n - k,
    {
        let ghost acc0 = acc@;
        let ghost rem0 = (n - k) as nat;
        let ghost pos0 = pos as int;
        match get_name(b, pos) {
            Some((x, p2)) => {
                acc.push(x);
                pos = p2;
                k = k + 1;
                proof {
                    let inner = dec_names_items(b@, pos as int, (n - k) as nat);
                    match inner {
                        Some((xs2, e2)) => {
                            assert(dec_names_items(b@, pos0, rem0) == Some((seq![x] + xs2, e2)));
                            assert(acc0 + (seq![x] + xs2) =~= acc0.push(x) + xs2);
                        },
                        None => {
                            assert(dec_names_items(b@, pos0, rem0) is None);
                        },
                    }
                }
            },
            None => {
                proof {
                    assert(dec_names_items(b@, pos0, rem0) is None);
                }
                return None;
            },
        }
    }
    proof {
        assert(dec_names_items(b@, pos as int, 0) == Some(
            (Seq::<SettingName>::empty(), pos as int),
        ));
        assert(acc@ + Seq::<SettingName>::empty() =~= acc@);
    }
    Some((acc, pos))
}

fn get_value(b: &[u8], i: usize) -> (r: Option<(SettingValue, usize)>)
    requires
        i <= b@.len(),
    ensures
        match r {
            Some((v, j)) => dec_value(b@, i as int) == Some((v@, j as int)) && j <= b@.len(),
            None => dec_value(b@, i as int) is None,
        },
{
    match get_u8(b, i) {
        Some((t, j)) => if t == 1 {
            match get_u16(b, j) {
                Some((v, k)) => Some((SettingValue::Number(v), k)),
                None => None,
            }
        } else if t == 2 {
            match get_decimal(b, j) {
                Some((v, k)) => Some((SettingValue::Decimal(v), k)),
                None => None,
            }
        } else if t == 3 {
            match get_string(b, j) {
                Some((v, k)) => Some((SettingValue::Text(v), k)),
                None => None,
            }
        } else if t == 4 {
            match get_bool(b, j) {
                Some((v, k)) => Some((SettingValue::Boolean(v), k)),
                None => None,
            }
        } else {
            None
        },
        None => None,
    }
}

#[verifier::loop_isolation(false)]
fn get_values(b: &[u8], i: usize) -> (r: Option<(Vec<SettingValue>, usize)>)
    requires
        i <= b@.len(),
    ensures
        match r {
            Some((v, j)) => dec_values(b@, i as int) == Some(
                (v@.map_values(|x: SettingValue| x@), j as int),
            ) && j <= b@.len(),
            None => dec_values(b@, i as int) is None,
        },
{
    let (n, start) = match get_u64(b, i) {
        Some(p) => p,
        None => { return None },
    };
    let ghost start0 = start as int;
    let mut acc: Vec<SettingValue> = Vec::new();
    let mut pos = start;
    let mut k: u64 = 0;
    while k < n
        invariant
            k <= n,
            pos <= b@.len(),
            dec_values_items(b@, start0, n as nat) == (match dec_values_items(
                b@,
                pos as int,
                (n - k) as nat,
            ) {
                Some((xs, e)) => Some((acc@.map_values(|x: SettingValue| x@) + xs, e)),
                None => None::<(Seq<SettingValueView>, int)>,
            }),
        decreases n - k,
    {
        let ghost acc0 = acc@.map_values(|x: SettingValue| x@);
        let ghost rem0 = (n - k) as nat;
        let ghost pos0 = pos as int;
        match get_value(b, pos) {
            Some((x, p2)) => {
                acc.push(x);
                pos = p2;
                k = k + 1;
                proof {
                    assert(acc@.map_values(|y: SettingValue| y@) =~= acc0.push(x@));
                    let inner = dec_values_items(b@, pos as int, (n - k) as nat);
                    match inner {
                        Some((xs2, e2)) => {
                            assert(dec_values_items(b@, pos0, rem0) == Some((seq![x@] + xs2, e2)));
                            assert(acc0 + (seq![x@] + xs2) =~= acc0.push(x@) + xs2);
                        },
                        None => {
                            assert(dec_values_items(b@, pos0, rem0) is None);
                        },
                    }
                }
            },
            None => {
                proof {
                    assert(dec_values_items(b@, pos0, rem0) is None);
                }
                return None;
            },
        }
    }
    proof {
        assert(dec_values_items(b@, pos as int, 0) == Some(
            (Seq::<SettingValueView>::empty(), pos as int),
        ));
        assert(acc@.map_values(|x: SettingValue| x@) + Seq::<SettingValueView>::empty()
            =~= acc@.map_values(|x: SettingValue| x@));
    }
    Some((acc, pos))
}

fn get_request(b: &[u8], i: usize) -> (r: Option<(Request, usize)>)
    requires
        i <= b@.len(),
    ensures
        match r {
            Some((q, j)) => dec_request(b@, i as int) == Some((q@, j as int)) && j <= b@.len(),
            None => dec_request(b@, i as int) is None,
        },
{
    match get_u8(b, i) {
        Some((t, j)) => if t == 1 {
            Some((Request::Ping, j))
        } else if t == 2 {
            Some((Request::Bye, j))
        } else if t == 3 {
            match get_mac(b, j) {
                Some((mac, k)) => Some((Request::Hello { mac }, k)),
                None => None,
            }
        } else if t == 4 {
            match get_decimal(b, j) {
                Some((temperature, k)) => match get_u8(b, k) {
                    Some((humidity, l)) => match get_opt_u16(b, l) {
                        Some((air_pressure, e)) => Some(
                            (Request::PostResults { temperature, humidity, air_pressure }, e),
                        ),
                        None => None,
                    },
                    None => None,
                },
                None => None,
            }
        } else if t == 5 {
            match get_decimal(b, j) {
                Some((battery, k)) => match get_string(b, k) {
                    Some((wifi_ssid, l)) => match get_i8(b, l) {
                        Some((wifi_rssi, e)) => Some(
                            (Request::PostStats { battery, wifi_ssid, wifi_rssi }, e),
                        ),
                        None => None,
                    },
                    None => None,
                },
                None => None,
            }
        } else if t == 6 {
            match get_string(b, j) {
                Some((text, k)) => Some((Request::SendNotification(text), k)),
                None => None,
            }
        } else if t == 7 {
            match get_names(b, j) {
                Some((names, k)) => Some((Request::GetSettings(names), k)),
                None => None,
            }
        } else {
            None
        },
        None => None,
    }
}

fn get_response(b: &[u8], i: usize) -> (r: Option<(Response, usize)>)
    requires
        i <= b@.len(),
    ensures
        match r {
            Some((p, j)) => dec_response(b@, i as int) == Some((p@, j as int)) && j <= b@.len(),
            None => dec_response(b@, i as int) is None,
        },
{
    match get_u8(b, i) {
        Some((t, j)) => if t == 1 {
            Some((Response::Pong, j))
        } else if t == 2 {
            Some((Response::Okay, j))
        } else if t == 3 {
            Some((Response::Reject, j))
        } else if t == 4 {
            match get_values(b, j) {
                Some((values, k)) => Some((Response::Settings(values), k)),
                None => None,
            }
        } else {
            None
        },
        None => None,
    }
}

/// Deserialize one message from a byte buffer; the whole buffer must hold
/// exactly one encoded message.
pub fn decode_message(b: &[u8]) -> (r: Option<Message>)
    ensures
        match r {
            Some(m) => dec_message(b@) == Some(m@),
            None => dec_message(b@) is None,
        },
{
    let inner = match get_u8(b, 0) {
        Some((t, j)) => if t == 1 {
            match get_request(b, j) {
                Some((q, k)) => Some((Message::Request(q), k)),
                None => None,
            }
        } else if t == 2 {
            match get_response(b, j) {
                Some((p, k)) => Some((Message::Response(p), k)),
                None => None,
            }
        } else {
            None
        },
        None => None,
    };
    match inner {
        Some((m, j)) => if j == b.len() {
            Some(m)
        } else {
            None
        },
        None => None,
    }
}

/// Round trip: decoding an encoded message yields the message back, for
/// every message whose strings and lists fit their eight-byte length
/// prefixes (which every value built from executable strings and vectors
/// does).
pub proof fn lemma_codec_round_trip(m: MessageView)
    requires
        wf_message(m),
    ensures
        dec_message(enc_message(m)) == Some(m),
{
    let b = enc_message(m);
    assert(b.subrange(0, b.len() as int) =~= b);
    lemma_rt_msg(b, 0, m);
}

} // verus!
