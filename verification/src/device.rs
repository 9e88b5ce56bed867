//! The wire format of the virtual keyboard device: fixed-layout binary
//! records — a device descriptor written once at creation, and an event
//! record per key transition plus a synchronization marker. The host
//! writes these bytes to the device control file.

use vstd::prelude::*;

use crate::data::hex_digit_char;
use crate::text::push_char;
use crate::vkey::{get_vkey, get_vkey_spec};

verus! {

/// The decimal digits of a non-negative value.
pub open spec fn dec_chars(x: int) -> Seq<char>
    decreases x,
{
    if x < 10 {
        seq![hex_digit_char(x)]
    } else {
        dec_chars(x / 10) + seq![hex_digit_char(x % 10)]
    }
}

fn push_dec(s: &mut String, x: u16)
    ensures
        final(s)@ == old(s)@ + dec_chars(x as int),
    decreases x,
{
    let ghost before = s@;
    if x < 10 {
        push_char(s, crate::data::hex_digit_char_exec(x as u8));
        proof {
            assert(s@ =~= before + dec_chars(x as int));
        }
    } else {
        push_dec(s, x / 10);
        push_char(s, crate::data::hex_digit_char_exec((x % 10) as u8));
        proof {
            assert(s@ =~= before + dec_chars(x as int));
        }
    }
}

/// Event type of a synchronization event.
pub const EV_SYN: u16 = 0;

/// Event type of a key transition.
pub const EV_KEY: u16 = 1;

/// Code of the synchronization report.
pub const SYN_REPORT: u16 = 0;

/// One event record: time fields, event type, code and value.
#[derive(Debug, PartialEq, Eq, Structural, Clone, Copy)]
pub struct InputEvent {
    pub tv_sec: i64,
    pub tv_usec: i64,
    pub type_: u16,
    pub code: u16,
    pub value: i32,
}

impl InputEvent {
    /// An event record carrying no time of its own.
    pub fn new(type_: u16, code: u16, value: i32) -> (r: Self)
        ensures
            r == (InputEvent { tv_sec: 0, tv_usec: 0, type_, code, value }),
    {
        InputEvent { tv_sec: 0, tv_usec: 0, type_, code, value }
    }
}

/// A key press or release bound for the device, still carrying the
/// abstract key code.
#[derive(Debug, PartialEq, Eq, Structural, Clone, Copy)]
pub struct KeyboardInput {
    pub vk_code: u16,
    pub key_down: bool,
}

/// The display text of a key transition: the abstract code and the
/// direction, in braces.
pub open spec fn keyboard_input_text(k: KeyboardInput) -> Seq<char> {
    seq!['{'] + dec_chars(k.vk_code as int) + seq![','] + (if k.key_down {
        "down"@
    } else {
        "up"@
    }) + seq!['}']
}

impl KeyboardInput {
    pub fn new(vk_code: u16, key_down: bool) -> (r: Self)
        ensures
            r.vk_code == vk_code,
            r.key_down == key_down,
    {
        KeyboardInput { vk_code, key_down }
    }

    /// The display text of this transition, e.g. `{65,down}`.
    pub fn to_text(&self) -> (r: String)
        ensures
            r@ == keyboard_input_text(*self),
    {
        let mut s = String::new();
        push_char(&mut s, '{');
        push_dec(&mut s, self.vk_code);
        push_char(&mut s, ',');
        let s2 = if self.key_down {
            s.concat("down")
        } else {
            s.concat("up")
        };
        let mut s3 = s2;
        push_char(&mut s3, '}');
        proof {
            assert(s3@ =~= keyboard_input_text(*self));
        }
        s3
    }
}

/// The two little-endian bytes of a 16-bit value.
pub open spec fn le16(x: u16) -> Seq<u8> {
    seq![(x % 256) as u8, (x / 256) as u8]
}

/// The four little-endian bytes of a 32-bit value.
pub open spec fn le32(x: u32) -> Seq<u8> {
    seq![(x % 256) as u8, ((x / 256) % 256) as u8, ((x / 65536) % 256) as u8, (x / 16777216) as u8]
}

/// The eight little-endian bytes of a 64-bit value.
pub open spec fn le64(x: u64) -> Seq<u8> {
    seq![
        (x % 256) as u8,
        ((x / 0x100) % 256) as u8,
        ((x / 0x10000) % 256) as u8,
        ((x / 0x1000000) % 256) as u8,
        ((x / 0x100000000) % 256) as u8,
        ((x / 0x10000000000) % 256) as u8,
        ((x / 0x1000000000000) % 256) as u8,
        (x / 0x100000000000000) as u8,
    ]
}

fn push_le16(v: &mut Vec<u8>, x: u16)
    ensures
        final(v)@ == old(v)@ + le16(x),
{
    let ghost before = v@;
    v.push((x % 256) as u8);
    v.push((x / 256) as u8);
    proof {
        assert(v@ =~= before + le16(x));
    }
}

fn push_le32(v: &mut Vec<u8>, x: u32)
    ensures
        final(v)@ == old(v)@ + le32(x),
{
    let ghost before = v@;
    v.push((x % 256) as u8);
    v.push(((x / 256) % 256) as u8);
    v.push(((x / 65536) % 256) as u8);
    v.push((x / 16777216) as u8);
    proof {
        assert(v@ =~= before + le32(x));
    }
}

fn push_le64(v: &mut Vec<u8>, x: u64)
    ensures
        final(v)@ == old(v)@ + le64(x),
{
    let ghost before = v@;
    v.push((x % 256) as u8);
    v.push(((x / 0x100) % 256) as u8);
    v.push(((x / 0x10000) % 256) as u8);
    v.push(((x / 0x1000000) % 256) as u8);
    v.push(((x / 0x100000000) % 256) as u8);
    v.push(((x / 0x10000000000) % 256) as u8);
    v.push(((x / 0x1000000000000) % 256) as u8);
    v.push((x / 0x100000000000000) as u8);
    proof {
        assert(v@ =~= before + le64(x));
    }
}

/// The 24-byte layout of one event record: seconds, microseconds, type,
/// code and value, each little-endian.
pub open spec fn event_bytes_spec(e: InputEvent) -> Seq<u8> {
    le64(e.tv_sec as u64) + le64(e.tv_usec as u64) + le16(e.type_) + le16(e.code) + le32(
        e.value as u32,
    )
}

/// Encodes one event record for the device file.
pub fn encode_input_event(e: &InputEvent) -> (r: Vec<u8>)
    requires
        e.tv_sec >= 0,
        e.tv_usec >= 0,
        e.value >= 0,
    ensures
        r@ == event_bytes_spec(*e),
        r@.len() == 24,
{
    let mut r: Vec<u8> = Vec::new();
    push_le64(&mut r, e.tv_sec as u64);
    push_le64(&mut r, e.tv_usec as u64);
    push_le16(&mut r, e.type_);
    push_le16(&mut r, e.code);
    push_le32(&mut r, e.value as u32);
    proof {
        assert(r@ =~= event_bytes_spec(*e));
    }
    r
}

/// The key event of one transition: down presses with value 1, up
/// releases with value 0.
pub open spec fn key_event_spec(linux_key: u16, key_down: bool) -> InputEvent {
    InputEvent {
        tv_sec: 0,
        tv_usec: 0,
        type_: EV_KEY,
        code: linux_key,
        value: if key_down {
            1
        } else {
            0
        },
    }
}

/// The synchronization event emitted after a transition.
pub open spec fn syn_event_spec() -> InputEvent {
    InputEvent { tv_sec: 0, tv_usec: 0, type_: EV_SYN, code: SYN_REPORT, value: 0 }
}

/// The device-level events of one key transition: the key table
/// translates the abstract code to the platform code, then the key
/// event is followed by a synchronization event. An abstract code
/// absent from the table is an error.
pub fn key_transition_events(input: &KeyboardInput) -> (r: Result<Vec<InputEvent>, &'static str>)
    ensures
        match r {
            Ok(evs) => get_vkey_spec(input.vk_code) is Some && evs@ == seq![
                key_event_spec(get_vkey_spec(input.vk_code).unwrap().linux_key, input.key_down),
                syn_event_spec(),
            ],
            Err(m) => get_vkey_spec(input.vk_code) is None && m@ == "Unknown virtual key code"@,
        },
{
    match get_vkey(input.vk_code) {
        Ok(key) => {
            let mut evs: Vec<InputEvent> = Vec::new();
            evs.push(InputEvent::new(EV_KEY, key.linux_key, if input.key_down { 1 } else { 0 }));
            evs.push(InputEvent::new(EV_SYN, SYN_REPORT, 0));
            proof {
                assert(evs@ =~= seq![
                    key_event_spec(get_vkey_spec(input.vk_code).unwrap().linux_key, input.key_down),
                    syn_event_spec(),
                ]);
            }
            Ok(evs)
        },
        Err(m) => Err(m),
    }
}

/// A sequence of zero bytes.
pub open spec fn zero_bytes(n: nat) -> Seq<u8> {
    Seq::new(n, |i: int| 0u8)
}

/// The name field of the descriptor: at most 79 name bytes, zero-padded
/// to 80.
pub open spec fn padded_name(name: Seq<u8>) -> Seq<u8> {
    let t = if name.len() > 79 {
        name.take(79)
    } else {
        name
    };
    t + zero_bytes((80 - t.len()) as nat)
}

/// The 1116-byte device-descriptor record: the padded name, the device
/// identity (bus type, vendor, product, version), the force-feedback
/// count, and four zeroed 64-entry absolute-axis arrays.
pub open spec fn descriptor_spec(
    name: Seq<u8>,
    bustype: u16,
    vendor: u16,
    product: u16,
    version: u16,
) -> Seq<u8> {
    padded_name(name) + le16(bustype) + le16(vendor) + le16(product) + le16(version) + le32(0)
        + zero_bytes(1024)
}

/// Encodes the device-descriptor record written once at device
/// creation.
pub fn device_descriptor(name: &Vec<u8>, bustype: u16, vendor: u16, product: u16, version: u16) -> (r:
    Vec<u8>)
    ensures
        r@ == descriptor_spec(name@, bustype, vendor, product, version),
        r@.len() == 1116,
{
    let mut r: Vec<u8> = Vec::new();
    let name_len = if name.len() > 79 {
        79
    } else {
        name.len()
    };
    let mut i: usize = 0;
    while i < name_len
        invariant
            i <= name_len <= name@.len(),
            name_len == if name@.len() > 79 {
                79int
            } else {
                name@.len() as int
            },
            r@ == name@.take(i as int),
        decreases name_len - i,
    {
        r.push(name[i]);
        i += 1;
        proof {
            assert(r@ =~= name@.take(i as int));
        }
    }
    while i < 80
        invariant
            name_len <= i <= 80,
            name_len == if name@.len() > 79 {
                79int
            } else {
                name@.len() as int
            },
            r@ == name@.take(name_len as int) + zero_bytes((i - name_len) as nat),
        decreases 80 - i,
    {
        r.push(0);
        i += 1;
        proof {
            assert(r@ =~= name@.take(name_len as int) + zero_bytes((i - name_len) as nat));
        }
    }
    proof {
        if name@.len() > 79 {
            assert(r@ =~= padded_name(name@));
        } else {
            assert(name@.take(name@.len() as int) =~= name@);
            assert(r@ =~= padded_name(name@));
        }
    }
    push_le16(&mut r, bustype);
    push_le16(&mut r, vendor);
    push_le16(&mut r, product);
    push_le16(&mut r, version);
    push_le32(&mut r, 0);
    let ghost header = r@;
    let mut j: usize = 0;
    while j < 1024
        invariant
            j <= 1024,
            r@ == header + zero_bytes(j as nat),
        decreases 1024 - j,
    {
        r.push(0);
        j += 1;
        proof {
            assert(r@ =~= header + zero_bytes(j as nat));
        }
    }
    proof {
        assert(r@ =~= descriptor_spec(name@, bustype, vendor, product, version));
    }
    r
}

} // verus!
