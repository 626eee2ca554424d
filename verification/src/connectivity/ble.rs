//! The decisions of the Bluetooth LE peripheral: the name it advertises, the
//! advertising payload, and how it answers the GATT events of a connection.

use trouble_host::advertise::AdStructure;
use vstd::prelude::*;

verus! {

/// Advertising flag: LE General Discoverable Mode.
pub const LE_GENERAL_DISCOVERABLE: u8 = 0b0000_0010;

/// Advertising flag: BR/EDR not supported.
pub const BR_EDR_NOT_SUPPORTED: u8 = 0b0000_0100;

/// Longest advertising payload of a legacy advertisement.
pub const ADVERTISING_DATA_MAX: usize = 31;

/// `trouble_host::Error`, the host stack's error, carried opaquely.
#[verifier::external_type_specification]
#[verifier::external_body]
pub struct ExHostError(trouble_host::Error);

/// The ASCII bytes of `Kazam_` (K a z a m _), the start of the device name.
pub open spec fn name_prefix() -> Seq<u8> {
    seq![75u8, 97u8, 122u8, 97u8, 109u8, 95u8]
}

/// The upper-case hexadecimal digit of a value below 16.
pub open spec fn hex_digit(d: u8) -> u8 {
    if d < 10 { (48u8 + d) as u8 } else { (65u8 + (d - 10)) as u8 }
}

/// The two upper-case hexadecimal digits of a byte.
pub open spec fn hex_byte(b: u8) -> Seq<u8> {
    seq![hex_digit(b / 16), hex_digit(b % 16)]
}

/// The name a device with this MAC address advertises: `Kazam_` and the last
/// two bytes of the address in upper-case hexadecimal.
pub open spec fn device_name_of(mac: Seq<u8>) -> Seq<u8> {
    name_prefix() + hex_byte(mac[mac.len() - 2]) + hex_byte(mac[mac.len() - 1])
}

/// The decimal digits of `n`, most significant first, without leading zeros.
pub open spec fn decimal(n: nat) -> Seq<u8>
    decreases n,
{
    if n < 10 {
        seq![(48u8 + n) as u8]
    } else {
        decimal(n / 10) + seq![(48u8 + n % 10) as u8]
    }
}

/// The ASCII text `Read Count: <count>` (R e a d, space, C o u n t, colon,
/// space, then the decimal count) that a read of the sensor data shows.
pub open spec fn read_count_text(count: u8) -> Seq<u8> {
    seq![82u8, 101u8, 97u8, 100u8, 32u8, 67u8, 111u8, 117u8, 110u8, 116u8, 58u8, 32u8] + decimal(
        count as nat,
    )
}

/// The advertising payload: a Flags structure and a Complete Local Name
/// structure, each as length, type and data.
pub open spec fn advertising_payload(flags: u8, name: Seq<u8>) -> Seq<u8> {
    seq![2u8, 0x01u8, flags, ((name.len() + 1) % 256) as u8, 0x09u8] + name
}

/// The ASCII bytes `Read Count: ` that start the read-count text.
pub open spec fn read_count_prefix() -> Seq<u8> {
    seq![82u8, 101u8, 97u8, 100u8, 32u8, 67u8, 111u8, 117u8, 110u8, 116u8, 58u8, 32u8]
}

/// Whether a byte is an ASCII decimal digit.
pub open spec fn is_decimal_digit(c: u8) -> bool {
    48 <= c <= 57
}

/// The number that a string of ASCII decimal digits denotes, read in base 10.
pub open spec fn decimal_value(s: Seq<u8>) -> int
    decreases s.len(),
{
    if s.len() == 0 {
        0
    } else {
        decimal_value(s.drop_last()) * 10 + (s.last() - 48)
    }
}

/// The value of an upper-case hexadecimal digit character, or -1 for any
/// other byte.
pub open spec fn hex_char_value(c: u8) -> int {
    if 48 <= c <= 57 {
        c - 48
    } else if 65 <= c <= 70 {
        c - 55
    } else {
        -1
    }
}

proof fn lemma_decimal_parses(n: nat)
    ensures
        decimal(n).len() >= 1,
        forall|i: int| 0 <= i < decimal(n).len() ==> is_decimal_digit(#[trigger] decimal(n)[i]),
        n > 0 ==> decimal(n)[0] != 48,
        decimal_value(decimal(n)) == n,
    decreases n,
{
    if n < 10 {
        let s = decimal(n);
        assert(s.drop_last() =~= Seq::<u8>::empty());
        assert(decimal_value(s.drop_last()) == 0);
        assert(decimal_value(s) == decimal_value(s.drop_last()) * 10 + (s.last() - 48));
    } else {
        lemma_decimal_parses(n / 10);
        let s = decimal(n);
        let head = decimal(n / 10);
        assert(s == head + seq![(48u8 + n % 10) as u8]);
        assert(s.drop_last() =~= head);
        assert(s.last() == (48u8 + n % 10) as u8);
        assert(decimal_value(s) == decimal_value(s.drop_last()) * 10 + (s.last() - 48));
        assert(decimal_value(s) == (n / 10) * 10 + n % 10);
        assert(s[0] == head[0]);
        assert forall|i: int| 0 <= i < s.len() implies is_decimal_digit(#[trigger] s[i]) by {
            if i < head.len() {
                assert(s[i] == head[i]);
            }
        }
    }
}

proof fn lemma_hex_digit_value(d: u8)
    requires
        d < 16,
    ensures
        hex_char_value(hex_digit(d)) == d,
{
}

fn push_hex_byte(out: &mut Vec<u8>, b: u8)
    ensures
        final(out)@ == old(out)@ + hex_byte(b),
{
    let hi = b / 16;
    let lo = b % 16;
    let hi_digit = if hi < 10 { 48u8 + hi } else { 65u8 + (hi - 10) };
    let lo_digit = if lo < 10 { 48u8 + lo } else { 65u8 + (lo - 10) };
    out.push(hi_digit);
    out.push(lo_digit);
    assert(out@ =~= old(out)@ + hex_byte(b));
}

/// The device name for a MAC address, as ASCII bytes.
pub fn device_name(mac: &[u8]) -> (name: Vec<u8>)
    requires
        mac@.len() >= 2,
    ensures
        name@ == device_name_of(mac@),
        name@.len() == 10,
        name@.take(6) == name_prefix(),
        forall|i: int| 6 <= i < 10 ==> hex_char_value(#[trigger] name@[i]) >= 0,
        hex_char_value(name@[6]) * 4096 + hex_char_value(name@[7]) * 256 + hex_char_value(
            name@[8],
        ) * 16 + hex_char_value(name@[9]) == mac@[mac@.len() - 2] as int * 256
            + mac@[mac@.len() - 1] as int,
{
    proof {
        law_device_name_spells_mac(mac@);
    }
    let n = mac.len();
    let mut name: Vec<u8> = Vec::new();
    name.push(75u8);
    name.push(97u8);
    name.push(122u8);
    name.push(97u8);
    name.push(109u8);
    name.push(95u8);
    assert(name@ =~= name_prefix());
    push_hex_byte(&mut name, mac[n - 2]);
    push_hex_byte(&mut name, mac[n - 1]);
    name
}

/// `AdStructure::encode_slice` on a Flags structure followed by a Complete
/// Local Name structure. It succeeds exactly when both structures fit in
/// `dest`; it then writes them at the start of `dest` and returns their
/// length. On failure it says nothing of what was written.
#[verifier::external_body]
fn encode_flags_and_complete_name(flags: u8, name: &[u8], dest: &mut [u8]) -> (r: Result<
    usize,
    trouble_host::Error,
>)
    ensures
        r is Ok <==> 5 + name@.len() <= old(dest)@.len(),
        r matches Ok(n) ==> n == 5 + name@.len() && final(dest)@ == advertising_payload(
            flags,
            name@,
        ) + old(dest)@.skip(n as int),
{
    AdStructure::encode_slice(
        &[AdStructure::Flags(flags), AdStructure::CompleteLocalName(name)],
        dest,
    ).map_err(trouble_host::Error::from)
}

/// Why the advertising payload could not be built.
#[derive(Debug, Clone, Copy, PartialEq, Eq, Structural)]
pub enum AdvertiseError {
    /// The name does not fit in a legacy advertisement.
    InsufficientSpace,
}

/// The advertising payload for a device name: general discoverable, no
/// BR/EDR, and the complete local name. It fails when the name is longer than
/// the 26 bytes that fit beside the flags.
pub fn advertising_data(name: &[u8]) -> (r: Result<Vec<u8>, AdvertiseError>)
    ensures
        r is Ok <==> name@.len() + 5 <= ADVERTISING_DATA_MAX,
        r matches Ok(data) ==> data@ == advertising_payload(
            LE_GENERAL_DISCOVERABLE | BR_EDR_NOT_SUPPORTED,
            name@,
        ),
        r matches Err(e) ==> e == AdvertiseError::InsufficientSpace,
        r matches Ok(data) ==> {
            &&& data@.len() == 5 + name@.len()
            &&& data@[0] == 2 && data@[1] == 0x01 && data@[2] == 0x06
            &&& data@[3] as int == name@.len() + 1 && data@[4] == 0x09
            &&& data@.skip(5) == name@
        },
{
    proof {
        assert((LE_GENERAL_DISCOVERABLE | BR_EDR_NOT_SUPPORTED) == 0x06u8) by (bit_vector);
    }
    let mut buf: Vec<u8> = vec![0u8; ADVERTISING_DATA_MAX];
    let flags = LE_GENERAL_DISCOVERABLE | BR_EDR_NOT_SUPPORTED;
    match encode_flags_and_complete_name(flags, name, buf.as_mut_slice()) {
        Ok(len) => {
            buf.truncate(len);
            proof {
                law_advertising_payload_layout(flags, name@);
            }
            assert(buf@ =~= advertising_payload(flags, name@));
            Ok(buf)
        },
        Err(_) => Err(AdvertiseError::InsufficientSpace),
    }
}

/// The text shown for the sensor data after `count` reads, as ASCII bytes.
pub fn read_count_message(count: u8) -> (text: Vec<u8>)
    ensures
        text@ == read_count_text(count),
        text@.take(12) == read_count_prefix(),
        text@.len() > 12,
        forall|i: int| 12 <= i < text@.len() ==> is_decimal_digit(#[trigger] text@[i]),
        count > 0 ==> text@[12] != 48,
        decimal_value(text@.skip(12)) == count as int,
{
    proof {
        law_read_count_text_spells_count(count);
    }
    let mut text: Vec<u8> = Vec::new();
    text.push(82u8);
    text.push(101u8);
    text.push(97u8);
    text.push(100u8);
    text.push(32u8);
    text.push(67u8);
    text.push(111u8);
    text.push(117u8);
    text.push(110u8);
    text.push(116u8);
    text.push(58u8);
    text.push(32u8);
    let ghost prefix = text@;
    if count >= 100 {
        text.push(48u8 + count / 100);
    }
    if count >= 10 {
        text.push(48u8 + (count / 10) % 10);
    }
    text.push(48u8 + count % 10);
    proof {
        let n = count as nat;
        reveal_with_fuel(decimal, 3);
        if n >= 100 {
            assert(decimal(n / 10) == decimal(n / 100) + seq![(48u8 + (n / 10) % 10) as u8]);
            assert(decimal(n / 100) == seq![(48u8 + n / 100) as u8]);
        } else if n >= 10 {
            assert(decimal(n / 10) == seq![(48u8 + n / 10) as u8]);
        }
        assert(text@ =~= prefix + decimal(n));
    }
    text
}

/// An event of a GATT connection, as far as the peripheral looks at it.
#[derive(Debug, Clone, Copy, PartialEq, Eq, Structural)]
pub enum ConnectionEvent {
    /// The central disconnected.
    Disconnected,
    /// A read of the attribute with this handle.
    GattRead { handle: u16 },
    /// A write to the attribute with this handle.
    GattWrite { handle: u16 },
    /// Any other GATT request.
    GattOther,
    /// Any other connection event.
    Other,
}

/// What the peripheral does with an event.
#[derive(Debug)]
pub enum GattStep {
    /// Stop serving the connection.
    Stop,
    /// Wait for the next event.
    Continue,
    /// Accept the request and send the reply.
    Reply,
    /// Log the written data, then accept the request and send the reply.
    LogWriteAndReply,
    /// Set the sensor data to these bytes, then accept the request and send
    /// the reply.
    SetValueAndReply(Vec<u8>),
}

/// The read count after one more read of the sensor data; it wraps from 255
/// to 0.
pub open spec fn next_read_count(count: u8) -> u8 {
    if count == 255 { 0 } else { (count + 1) as u8 }
}

/// The read count after one connection event.
pub open spec fn count_after_event(sensor_handle: u16, count: u8, event: ConnectionEvent) -> u8 {
    match event {
        ConnectionEvent::GattRead { handle } => if handle == sensor_handle {
            next_read_count(count)
        } else {
            count
        },
        _ => count,
    }
}

/// The read count after a sequence of connection events.
pub open spec fn count_after_events(
    sensor_handle: u16,
    count: u8,
    events: Seq<ConnectionEvent>,
) -> u8
    decreases events.len(),
{
    if events.len() == 0 {
        count
    } else {
        count_after_events(
            sensor_handle,
            count_after_event(sensor_handle, count, events[0]),
            events.drop_first(),
        )
    }
}

/// How many of the events are reads of the sensor data.
pub open spec fn sensor_reads(sensor_handle: u16, events: Seq<ConnectionEvent>) -> nat
    decreases events.len(),
{
    if events.len() == 0 {
        0
    } else {
        (if events[0] == (ConnectionEvent::GattRead { handle: sensor_handle }) {
            1nat
        } else {
            0nat
        }) + sensor_reads(sensor_handle, events.drop_first())
    }
}

/// Handles one connection event. `count` counts the reads of the sensor data
/// characteristic, whose attribute handle is `sensor_handle`; each such read
/// increments it and sets the characteristic to the new read-count text.
/// Every GATT request is answered; a disconnection ends the connection.
pub fn handle_gatt_event(sensor_handle: u16, count: &mut u8, event: ConnectionEvent) -> (step:
    GattStep)
    ensures
        *final(count) == count_after_event(sensor_handle, *old(count), event),
        event == (ConnectionEvent::GattRead { handle: sensor_handle }) ==> *final(count) as int == (
        *old(count) as int + 1) % 256,
        event != (ConnectionEvent::GattRead { handle: sensor_handle }) ==> *final(count) == *old(
            count,
        ),
        match event {
            ConnectionEvent::GattRead { handle } => if handle == sensor_handle {
                &&& *final(count) == next_read_count(*old(count))
                &&& step matches GattStep::SetValueAndReply(text)
                &&& text@ == read_count_text(*final(count))
            } else {
                *final(count) == *old(count) && step == GattStep::Reply
            },
            ConnectionEvent::GattWrite { handle } => {
                &&& *final(count) == *old(count)
                &&& step == if handle == sensor_handle {
                    GattStep::LogWriteAndReply
                } else {
                    GattStep::Reply
                }
            },
            ConnectionEvent::GattOther => *final(count) == *old(count) && step == GattStep::Reply,
            ConnectionEvent::Disconnected => *final(count) == *old(count) && step
                == GattStep::Stop,
            ConnectionEvent::Other => *final(count) == *old(count) && step == GattStep::Continue,
        },
{
    match event {
        ConnectionEvent::Disconnected => GattStep::Stop,
        ConnectionEvent::GattRead { handle } => {
            if handle == sensor_handle {
                *count = count.wrapping_add(1);
                GattStep::SetValueAndReply(read_count_message(*count))
            } else {
                GattStep::Reply
            }
        },
        ConnectionEvent::GattWrite { handle } => {
            if handle == sensor_handle {
                GattStep::LogWriteAndReply
            } else {
                GattStep::Reply
            }
        },
        ConnectionEvent::GattOther => GattStep::Reply,
        ConnectionEvent::Other => GattStep::Continue,
    }
}

/// The advertised name of any device fits in the name buffer and in the
/// advertising payload, so building the payload for it never fails.
pub proof fn law_device_name_fits(mac: Seq<u8>)
    requires
        mac.len() >= 2,
    ensures
        device_name_of(mac).len() == 10,
        device_name_of(mac).len() + 5 <= ADVERTISING_DATA_MAX,
{
}

/// The read-count text is at most 15 bytes, so it fits in the characteristic.
pub proof fn law_read_count_text_fits(count: u8)
    ensures
        12 < read_count_text(count).len() <= 15,
{
    reveal_with_fuel(decimal, 3);
}

/// Over any sequence of events, the read count advances by the number of
/// reads of the sensor data, modulo 256.
pub proof fn law_count_tracks_sensor_reads(
    sensor_handle: u16,
    count: u8,
    events: Seq<ConnectionEvent>,
)
    ensures
        count_after_events(sensor_handle, count, events) as nat == (count as nat + sensor_reads(
            sensor_handle,
            events,
        )) % 256,
    decreases events.len(),
{
    if events.len() > 0 {
        let next = count_after_event(sensor_handle, count, events[0]);
        law_count_tracks_sensor_reads(sensor_handle, next, events.drop_first());
        let rest = sensor_reads(sensor_handle, events.drop_first());
        if events[0] == (ConnectionEvent::GattRead { handle: sensor_handle }) {
            assert(next as nat == (count as nat + 1) % 256);
            vstd::arithmetic::div_mod::lemma_add_mod_noop(count as int + 1, rest as int, 256);
            vstd::arithmetic::div_mod::lemma_small_mod(rest % 256, 256);
        } else {
            assert(next == count);
        }
    }
}

/// The read-count text is `Read Count: ` followed by decimal digits without a
/// leading zero, and those digits read in base 10 give the count back.
pub proof fn law_read_count_text_spells_count(count: u8)
    ensures
        read_count_text(count).take(12) == read_count_prefix(),
        read_count_text(count).len() > 12,
        forall|i: int|
            12 <= i < read_count_text(count).len() ==> is_decimal_digit(
                #[trigger] read_count_text(count)[i],
            ),
        count > 0 ==> read_count_text(count)[12] != 48,
        decimal_value(read_count_text(count).skip(12)) == count as int,
{
    let t = read_count_text(count);
    let d = decimal(count as nat);
    lemma_decimal_parses(count as nat);
    assert(t.take(12) =~= read_count_prefix());
    assert(t.skip(12) =~= d);
    assert forall|i: int| 12 <= i < t.len() implies is_decimal_digit(#[trigger] t[i]) by {
        assert(t[i] == d[i - 12]);
    }
}

/// The device name is `Kazam_` followed by four upper-case hexadecimal
/// digits, which read in base 16 give the last two bytes of the MAC address.
pub proof fn law_device_name_spells_mac(mac: Seq<u8>)
    requires
        mac.len() >= 2,
    ensures
        device_name_of(mac).len() == 10,
        device_name_of(mac).take(6) == name_prefix(),
        forall|i: int| 6 <= i < 10 ==> hex_char_value(#[trigger] device_name_of(mac)[i]) >= 0,
        hex_char_value(device_name_of(mac)[6]) * 4096 + hex_char_value(device_name_of(mac)[7])
            * 256 + hex_char_value(device_name_of(mac)[8]) * 16 + hex_char_value(
            device_name_of(mac)[9],
        ) == mac[mac.len() - 2] as int * 256 + mac[mac.len() - 1] as int,
{
    let a = mac[mac.len() - 2];
    let b = mac[mac.len() - 1];
    let s = device_name_of(mac);
    lemma_hex_digit_value(a / 16);
    lemma_hex_digit_value(a % 16);
    lemma_hex_digit_value(b / 16);
    lemma_hex_digit_value(b % 16);
    assert(s[6] == hex_digit(a / 16) && s[7] == hex_digit(a % 16));
    assert(s[8] == hex_digit(b / 16) && s[9] == hex_digit(b % 16));
    assert(s.take(6) =~= name_prefix());
    assert(a as int == (a / 16) as int * 16 + (a % 16) as int);
    assert(b as int == (b / 16) as int * 16 + (b % 16) as int);
}

/// The advertising payload is two AD structures: a Flags structure (length 2,
/// type 0x01, the flags byte) and a Complete Local Name structure whose length
/// byte counts its type byte and the name, with type 0x09, ending the payload
/// with the name itself.
pub proof fn law_advertising_payload_layout(flags: u8, name: Seq<u8>)
    requires
        name.len() + 5 <= ADVERTISING_DATA_MAX,
    ensures
        advertising_payload(flags, name).len() == 5 + name.len(),
        advertising_payload(flags, name)[0] == 2,
        advertising_payload(flags, name)[1] == 0x01,
        advertising_payload(flags, name)[2] == flags,
        advertising_payload(flags, name)[3] as int == name.len() + 1,
        advertising_payload(flags, name)[4] == 0x09,
        advertising_payload(flags, name).skip(5) == name,
{
    assert(advertising_payload(flags, name).skip(5) =~= name);
}

} // verus!
