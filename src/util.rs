use vstd::prelude::*;
use vstd::string::{StrSliceExecFns, StringExecFns};

use crate::error::AjazzError;
use crate::info::Kind;
use crate::input::{AjazzInput, InputView};

verus! {

/*
 Ajazz AKP153x's key index
 -----------------------------
| 0d | 0a | 07 | 04 | 01 | 10 |
|----|----|----|----|----|----|
| 0e | 0b | 08 | 05 | 02 | 11 |
|----|----|----|----|----|----|
| 0f | 0c | 09 | 06 | 03 | 12 |
 -----------------------------

 Ajazz AKP815's key index
  --------------
 | 0f | 0e | 0d |
 |----|----|----|
 | 0c | 0b | 0a |
 |----|----|----|
 | 09 | 08 | 07 |
 |----|----|----|
 | 06 | 05 | 04 |
 |----|----|----|
 | 03 | 02 | 01 |
  --------------
*/

/// Position on the AKP153 wire of each logical (row-major) key.
pub open spec fn akp153_table(key: u8) -> u8 {
    match key {
        0 => 12u8,
        1 => 9,
        2 => 6,
        3 => 3,
        4 => 0,
        5 => 15,
        6 => 13,
        7 => 10,
        8 => 7,
        9 => 4,
        10 => 1,
        11 => 16,
        12 => 14,
        13 => 11,
        14 => 8,
        15 => 5,
        16 => 2,
        _ => 17,
    }
}

/// Logical (row-major) key of each position on the AKP153 wire.
pub open spec fn akp153_inverse_table(key: u8) -> u8 {
    match key {
        0 => 4u8,
        1 => 10,
        2 => 16,
        3 => 3,
        4 => 9,
        5 => 15,
        6 => 2,
        7 => 8,
        8 => 14,
        9 => 1,
        10 => 7,
        11 => 13,
        12 => 0,
        13 => 6,
        14 => 12,
        15 => 5,
        16 => 11,
        _ => 17,
    }
}

pub open spec fn spec_elgato_to_ajazz153(kind: &Kind, key: u8) -> u8 {
    if key < kind.key_count() && key < 18 {
        akp153_table(key)
    } else {
        key
    }
}

pub open spec fn spec_ajazz153_to_elgato_input(kind: &Kind, key: u8) -> u8 {
    if key < kind.key_count() && key < 18 {
        akp153_inverse_table(key)
    } else {
        key
    }
}

pub open spec fn spec_inverse_key_index(kind: &Kind, key: u8) -> u8 {
    if key < kind.key_count() {
        (kind.key_count() - 1 - key) as u8
    } else {
        key
    }
}

/// Converts a logical key index to the AKP153's key index.
#[verifier::when_used_as_spec(spec_elgato_to_ajazz153)]
pub fn elgato_to_ajazz153(kind: &Kind, key: u8) -> (r: u8)
    ensures
        r == spec_elgato_to_ajazz153(kind, key),
{
    if key < kind.key_count() && key < 18 {
        match key {
            0 => 12,
            1 => 9,
            2 => 6,
            3 => 3,
            4 => 0,
            5 => 15,
            6 => 13,
            7 => 10,
            8 => 7,
            9 => 4,
            10 => 1,
            11 => 16,
            12 => 14,
            13 => 11,
            14 => 8,
            15 => 5,
            16 => 2,
            _ => 17,
        }
    } else {
        key
    }
}

/// Converts an AKP153 key index to a logical key index.
#[verifier::when_used_as_spec(spec_ajazz153_to_elgato_input)]
pub fn ajazz153_to_elgato_input(kind: &Kind, key: u8) -> (r: u8)
    ensures
        r == spec_ajazz153_to_elgato_input(kind, key),
{
    if key < kind.key_count() && key < 18 {
        match key {
            0 => 4,
            1 => 10,
            2 => 16,
            3 => 3,
            4 => 9,
            5 => 15,
            6 => 2,
            7 => 8,
            8 => 14,
            9 => 1,
            10 => 7,
            11 => 13,
            12 => 0,
            13 => 6,
            14 => 12,
            15 => 5,
            16 => 11,
            _ => 17,
        }
    } else {
        key
    }
}

/// Makes the last key index first and the first key index last.
#[verifier::when_used_as_spec(spec_inverse_key_index)]
pub fn inverse_key_index(kind: &Kind, key: u8) -> (r: u8)
    ensures
        r == spec_inverse_key_index(kind, key),
{
    if key < kind.key_count() {
        kind.key_count() - 1 - key
    } else {
        key
    }
}

/// Key index on the wire of a logical key index.
pub open spec fn spec_device_key_index(kind: &Kind, key: u8) -> u8 {
    if kind.spec_is_akp153() {
        spec_elgato_to_ajazz153(kind, key)
    } else if *kind == Kind::Akp815 {
        spec_inverse_key_index(kind, key)
    } else {
        key
    }
}

/// Logical key index of a key index on the wire.
pub open spec fn spec_logical_key_index(kind: &Kind, key: u8) -> u8 {
    if kind.spec_is_akp153() {
        spec_ajazz153_to_elgato_input(kind, key)
    } else if *kind == Kind::Akp815 {
        spec_inverse_key_index(kind, key)
    } else {
        key
    }
}

/// Maps a logical key index to the index that the device uses on the wire.
#[verifier::when_used_as_spec(spec_device_key_index)]
pub fn device_key_index(kind: &Kind, key: u8) -> (r: u8)
    ensures
        r == spec_device_key_index(kind, key),
{
    match kind {
        Kind::Akp153 | Kind::Akp153E | Kind::Akp153R => elgato_to_ajazz153(kind, key),
        Kind::Akp815 => inverse_key_index(kind, key),
        _ => key,
    }
}

/// Maps a key index that the device reports to the logical key index.
#[verifier::when_used_as_spec(spec_logical_key_index)]
pub fn logical_key_index(kind: &Kind, key: u8) -> (r: u8)
    ensures
        r == spec_logical_key_index(kind, key),
{
    match kind {
        Kind::Akp153 | Kind::Akp153E | Kind::Akp153R => ajazz153_to_elgato_input(kind, key),
        Kind::Akp815 => inverse_key_index(kind, key),
        _ => key,
    }
}

/// The key-index maps of every kind are inverse bijections on the valid
/// key indices: mapping a key to the wire and back gives the key, and so
/// does the other order, and both maps stay within the valid indices.
pub proof fn lemma_key_index_bijection(kind: Kind, key: u8)
    requires
        key < kind.key_count(),
    ensures
        device_key_index(&kind, key) < kind.key_count(),
        logical_key_index(&kind, key) < kind.key_count(),
        logical_key_index(&kind, device_key_index(&kind, key)) == key,
        device_key_index(&kind, logical_key_index(&kind, key)) == key,
{
}

/// Length of every report sent to the device, report id included.
pub open spec fn spec_report_length(kind: &Kind) -> nat {
    if kind.is_v2_api() {
        1025
    } else {
        513
    }
}

/// Extends a buffer with zeros up to the report length of the device.
pub fn mirabox_extend_packet(kind: &Kind, buf: &mut Vec<u8>)
    requires
        old(buf)@.len() <= spec_report_length(kind),
    ensures
        final(buf)@ == old(buf)@ + Seq::new(
            (spec_report_length(kind) - old(buf)@.len()) as nat,
            |i: int| 0u8,
        ),
{
    let length: usize = if kind.is_v2_api() {
        1025
    } else {
        513
    };
    let ghost start = buf@;
    while buf.len() < length
        invariant
            length == spec_report_length(kind),
            start.len() <= buf@.len() <= length,
            buf@ == start + Seq::new((buf@.len() - start.len()) as nat, |i: int| 0u8),
        decreases length - buf@.len(),
    {
        buf.push(0u8);
        assert(buf@ =~= start + Seq::new((buf@.len() - start.len()) as nat, |i: int| 0u8));
    }
}

/// Button states that a state report holds: none when its first byte is
/// zero, else one per key, read from the bytes after the first.
pub open spec fn spec_button_states(kind: &Kind, states: Seq<u8>) -> Seq<bool> {
    if states[0] == 0 {
        Seq::empty()
    } else {
        Seq::new(kind.key_count() as nat, |i: int| states[i + 1] != 0)
    }
}

/// Reads button states; empty when there is no data.
pub fn read_button_states(kind: &Kind, states: &[u8]) -> (r: Vec<bool>)
    requires
        states@.len() >= 1,
        states@[0] != 0 ==> states@.len() > kind.key_count(),
    ensures
        r@ == spec_button_states(kind, states@),
{
    if states[0] == 0 {
        return Vec::new();
    }
    let mut bools: Vec<bool> = Vec::new();
    let count = kind.key_count();
    let mut i: u8 = 0;
    while i < count
        invariant
            count == kind.key_count(),
            states@[0] != 0,
            states@.len() > count,
            i <= count,
            bools@ == Seq::new(i as nat, |j: int| states@[j + 1] != 0),
        decreases count - i,
    {
        bools.push(states[(i + 1) as usize] != 0);
        i = i + 1;
        assert(bools@ =~= Seq::new(i as nat, |j: int| states@[j + 1] != 0));
    }
    assert(bools@ =~= spec_button_states(kind, states@));
    bools
}

/// The value of a byte read as a two's complement signed byte.
pub open spec fn signed_byte(b: u8) -> i8 {
    if b < 128 {
        b as i8
    } else {
        (b as int - 256) as i8
    }
}

fn to_signed_byte(b: u8) -> (r: i8)
    ensures
        r == signed_byte(b),
{
    if b < 128 {
        b as i8
    } else {
        (b as i16 - 256) as i8
    }
}

/// Result of decoding an encoder report: `None` stands for bad data.
pub open spec fn spec_encoder_input(kind: &Kind, data: Seq<u8>) -> Option<InputView> {
    let n = kind.encoder_count() as nat;
    if data[4] == 0 {
        Some(InputView::Encoders(Seq::new(n, |i: int| data[i + 5] != 0)))
    } else if data[4] == 1 {
        Some(InputView::Twist(Seq::new(n, |i: int| signed_byte(data[i + 5]))))
    } else {
        None
    }
}

/// A decoding result agrees with its model, where `None` stands for bad data.
pub open spec fn decoded_as(r: Result<AjazzInput, AjazzError>, m: Option<InputView>) -> bool {
    match m {
        Some(v) => r matches Ok(i) && i@ == v,
        None => r matches Err(AjazzError::BadData),
    }
}

/// Reads encoder input from a report.
pub fn read_encoder_input(kind: &Kind, data: &[u8]) -> (r: Result<AjazzInput, AjazzError>)
    requires
        data@.len() >= 5 + kind.encoder_count(),
    ensures
        decoded_as(r, spec_encoder_input(kind, data@)),
{
    let n = kind.encoder_count() as usize;
    if data[4] == 0 {
        let mut states: Vec<bool> = Vec::new();
        let mut i: usize = 0;
        while i < n
            invariant
                n == kind.encoder_count(),
                data@.len() >= 5 + n,
                i <= n,
                states@ == Seq::new(i as nat, |j: int| data@[j + 5] != 0),
            decreases n - i,
        {
            states.push(data[i + 5] != 0);
            i = i + 1;
            assert(states@ =~= Seq::new(i as nat, |j: int| data@[j + 5] != 0));
        }
        Ok(AjazzInput::EncoderStateChange(states))
    } else if data[4] == 1 {
        let mut ticks: Vec<i8> = Vec::new();
        let mut i: usize = 0;
        while i < n
            invariant
                n == kind.encoder_count(),
                data@.len() >= 5 + n,
                i <= n,
                ticks@ == Seq::new(i as nat, |j: int| signed_byte(data@[j + 5])),
            decreases n - i,
        {
            ticks.push(to_signed_byte(data[i + 5]));
            i = i + 1;
            assert(ticks@ =~= Seq::new(i as nat, |j: int| signed_byte(data@[j + 5])));
        }
        Ok(AjazzInput::EncoderTwist(ticks))
    } else {
        Err(AjazzError::BadData)
    }
}

/// Logical key that an AKP03 button code stands for.
pub open spec fn akp03_button_slot(input: u8) -> Option<int> {
    if 1 <= input <= 6 {
        Some(input - 1)
    } else if input == 0x25 {
        Some(6)
    } else if input == 0x30 {
        Some(7)
    } else if input == 0x31 {
        Some(8)
    } else {
        None
    }
}

/// Encoder and tick count that an AKP03 twist code stands for.
pub open spec fn akp03_twist(input: u8) -> Option<(int, i8)> {
    if input == 0x90 {
        Some((0, -1i8))
    } else if input == 0x91 {
        Some((0, 1i8))
    } else if input == 0x50 {
        Some((1, -1i8))
    } else if input == 0x51 {
        Some((1, 1i8))
    } else if input == 0x60 {
        Some((2, -1i8))
    } else if input == 0x61 {
        Some((2, 1i8))
    } else {
        None
    }
}

/// Encoder that an AKP03 encoder press code stands for.
pub open spec fn akp03_encoder_press(input: u8) -> Option<int> {
    if input == 0x33 {
        Some(0)
    } else if input == 0x35 {
        Some(1)
    } else if input == 0x34 {
        Some(2)
    } else {
        None
    }
}

/// Decoded AKP03 input for a command code and a state byte; `None` stands
/// for bad data (an unknown code, or an encoder that the kind lacks).
pub open spec fn spec_akp03_input(kind: &Kind, input: u8, state: u8) -> Option<InputView> {
    let keys = kind.key_count() as nat;
    let encoders = kind.encoder_count() as nat;
    if input == 0 {
        Some(InputView::Buttons(Seq::new(keys, |i: int| false)))
    } else if akp03_button_slot(input) is Some {
        let slot = akp03_button_slot(input)->0;
        Some(InputView::Buttons(Seq::new(keys, |i: int| i == slot && state != 0)))
    } else if akp03_twist(input) is Some {
        let (e, v) = akp03_twist(input)->0;
        if e < encoders {
            Some(InputView::Twist(Seq::new(encoders, |i: int| if i == e { v } else { 0i8 })))
        } else {
            None
        }
    } else if akp03_encoder_press(input) is Some {
        let e = akp03_encoder_press(input)->0;
        if e < encoders {
            Some(InputView::Encoders(Seq::new(encoders, |i: int| i == e && state != 0)))
        } else {
            None
        }
    } else {
        None
    }
}

/// Reads an input from an AKP03-family report's command code.
pub fn ajazz03_read_input(kind: &Kind, input: u8, state: u8) -> (r: Result<AjazzInput, AjazzError>)
    ensures
        decoded_as(r, spec_akp03_input(kind, input, state)),
{
    match input {
        0..=6 | 0x25 | 0x30 | 0x31 => ajazz03_read_button_press(kind, input, state),
        0x90 | 0x91 | 0x50 | 0x51 | 0x60 | 0x61 => {
            assert(spec_akp03_input(kind, input, state) == spec_akp03_input(kind, input, 0));
            ajazz03_read_encoder_value(kind, input)
        },
        0x33..=0x35 => ajazz03_read_encoder_press(kind, input, state),
        _ => Err(AjazzError::BadData),
    }
}

fn ajazz03_read_button_press(kind: &Kind, input: u8, state: u8) -> (r: Result<AjazzInput, AjazzError>)
    requires
        input <= 6 || input == 0x25 || input == 0x30 || input == 0x31,
    ensures
        decoded_as(r, spec_akp03_input(kind, input, state)),
{
    let count = kind.key_count();
    let mut button_states: Vec<u8> = vec![0x01];
    let mut i: u8 = 0;
    while i <= count
        invariant
            count == kind.key_count(),
            i <= count + 1,
            button_states@.len() == i + 1,
            button_states@[0] == 1,
            forall|j: int| 1 <= j <= i ==> button_states@[j] == 0,
        decreases count + 1 - i,
    {
        button_states.push(0u8);
        i = i + 1;
    }
    if input == 0 {
        let states = read_button_states(kind, button_states.as_slice());
        assert(states@ =~= Seq::new(count as nat, |i: int| false));
        return Ok(AjazzInput::ButtonStateChange(states));
    }
    let pressed_index: usize = match input {
        1..=6 => input as usize,
        0x25 => 7,
        0x30 => 8,
        _ => 9,
    };
    button_states.set(pressed_index, state);
    let states = read_button_states(kind, button_states.as_slice());
    let ghost slot = akp03_button_slot(input)->0;
    assert(states@ =~= Seq::new(count as nat, |i: int| i == slot && state != 0));
    Ok(AjazzInput::ButtonStateChange(states))
}

fn ajazz03_read_encoder_value(kind: &Kind, input: u8) -> (r: Result<AjazzInput, AjazzError>)
    requires
        akp03_twist(input) is Some,
    ensures
        decoded_as(r, spec_akp03_input(kind, input, 0)),
{
    let (encoder, value): (usize, i8) = match input {
        0x90 => (0, -1),
        0x91 => (0, 1),
        0x50 => (1, -1),
        0x51 => (1, 1),
        0x60 => (2, -1),
        _ => (2, 1),
    };
    let n = kind.encoder_count() as usize;
    if encoder >= n {
        return Err(AjazzError::BadData);
    }
    let mut values: Vec<i8> = Vec::new();
    let mut i: usize = 0;
    while i < n
        invariant
            encoder < n,
            i <= n,
            values@ == Seq::new(i as nat, |j: int| if j == encoder { value } else { 0i8 }),
        decreases n - i,
    {
        values.push(if i == encoder { value } else { 0i8 });
        i = i + 1;
        assert(values@ =~= Seq::new(i as nat, |j: int| if j == encoder { value } else { 0i8 }));
    }
    Ok(AjazzInput::EncoderTwist(values))
}

fn ajazz03_read_encoder_press(kind: &Kind, input: u8, state: u8) -> (r: Result<AjazzInput, AjazzError>)
    requires
        0x33 <= input <= 0x35,
    ensures
        decoded_as(r, spec_akp03_input(kind, input, state)),
{
    let encoder: usize = match input {
        0x33 => 0,
        0x35 => 1,
        _ => 2,
    };
    let n = kind.encoder_count() as usize;
    if encoder >= n {
        return Err(AjazzError::BadData);
    }
    let mut states: Vec<bool> = Vec::new();
    let mut i: usize = 0;
    while i < n
        invariant
            encoder < n,
            i <= n,
            states@ == Seq::new(i as nat, |j: int| j == encoder && state != 0),
        decreases n - i,
    {
        states.push(i == encoder && state != 0);
        i = i + 1;
        assert(states@ =~= Seq::new(i as nat, |j: int| j == encoder && state != 0));
    }
    Ok(AjazzInput::EncoderStateChange(states))
}

/// Decoded input report of a device; `None` stands for bad data.
///
/// A first byte of zero means no data. On first-generation devices byte 9
/// holds the one-based wire index of the pressed key (zero for none); on
/// second-generation devices it holds a command code.
pub open spec fn spec_input_report(kind: &Kind, data: Seq<u8>) -> Option<InputView> {
    if data[0] == 0 {
        Some(InputView::NoData)
    } else if kind.is_v1_api() {
        let keys = kind.key_count() as nat;
        if data[9] == 0 {
            Some(InputView::Buttons(Seq::new(keys, |i: int| false)))
        } else if data[9] <= kind.key_count() {
            let key = spec_logical_key_index(kind, (data[9] - 1) as u8);
            Some(InputView::Buttons(Seq::new(keys, |i: int| i == key)))
        } else {
            None
        }
    } else {
        spec_akp03_input(kind, data[9], 1)
    }
}

/// Decodes one input report read from the device.
pub fn decode_input_report(kind: &Kind, data: &[u8]) -> (r: Result<AjazzInput, AjazzError>)
    requires
        data@.len() >= 10,
    ensures
        decoded_as(r, spec_input_report(kind, data@)),
{
    if data[0] == 0 {
        return Ok(AjazzInput::NoData);
    }
    if kind.is_v1_api() {
        let count = kind.key_count();
        let mut states: Vec<u8> = vec![0x01];
        let mut i: u8 = 0;
        while i <= count
            invariant
                count == kind.key_count(),
                i <= count + 1,
                states@.len() == i + 1,
                states@[0] == 1,
                forall|j: int| 1 <= j <= i ==> states@[j] == 0,
            decreases count + 1 - i,
        {
            states.push(0u8);
            i = i + 1;
        }
        if data[9] != 0 {
            if data[9] > count {
                return Err(AjazzError::BadData);
            }
            let key = logical_key_index(kind, data[9] - 1);
            proof {
                lemma_key_index_bijection(*kind, (data[9] - 1) as u8);
            }
            states.set((key + 1) as usize, 0x01);
            let buttons = read_button_states(kind, states.as_slice());
            assert(buttons@ =~= Seq::new(count as nat, |i: int| i == key));
            return Ok(AjazzInput::ButtonStateChange(buttons));
        }
        let buttons = read_button_states(kind, states.as_slice());
        assert(buttons@ =~= Seq::new(count as nat, |i: int| false));
        Ok(AjazzInput::ButtonStateChange(buttons))
    } else {
        ajazz03_read_input(kind, data[9], 0x01)
    }
}

/// What std's UTF-8 validation gives for some bytes: the characters, or
/// nothing when the bytes are not valid UTF-8.
pub uninterp spec fn utf8_decoded(b: Seq<u8>) -> Option<Seq<char>>;

/// Relies on `core::str::from_utf8`: it succeeds exactly on valid UTF-8,
/// and the characters depend on the bytes alone.
#[verifier::external_body]
fn decode_utf8(bytes: &[u8]) -> (r: Result<String, core::str::Utf8Error>)
    ensures
        r is Ok <==> utf8_decoded(bytes@) is Some,
        r matches Ok(s) ==> utf8_decoded(bytes@) == Some(s@),
{
    match core::str::from_utf8(bytes) {
        Ok(s) => Ok(s.to_string()),
        Err(e) => Err(e),
    }
}

/// The characters without their NUL characters, in order.
pub open spec fn without_nul(s: Seq<char>) -> Seq<char>
    decreases s.len(),
{
    if s.len() == 0 {
        s
    } else if s.last() == '\0' {
        without_nul(s.drop_last())
    } else {
        without_nul(s.drop_last()).push(s.last())
    }
}

/// Extracts a string from bytes, removing NUL characters: the bytes are
/// decoded as UTF-8, then every NUL character is dropped.
pub fn extract_str(bytes: &[u8]) -> (r: Result<String, AjazzError>)
    ensures
        r is Ok <==> utf8_decoded(bytes@) is Some,
        r matches Ok(s) ==> s@ == without_nul(utf8_decoded(bytes@)->0),
        r matches Err(e) ==> e is Utf8Error,
{
    let decoded = match decode_utf8(bytes) {
        Ok(s) => s,
        Err(e) => {
            return Err(AjazzError::Utf8Error(e));
        },
    };
    let text = decoded.as_str();
    let n = text.unicode_len();
    let mut kept = String::new();
    let mut i: usize = 0;
    while i < n
        invariant
            n == text@.len(),
            i <= n,
            kept@ == without_nul(text@.subrange(0, i as int)),
        decreases n - i,
    {
        assert(text@.subrange(0, i + 1).drop_last() =~= text@.subrange(0, i as int));
        let c = text.get_char(i);
        if c != '\0' {
            let piece = text.substring_char(i, i + 1);
            assert(piece@ =~= seq![c]);
            kept.append(piece);
        }
        i = i + 1;
        assert(kept@ =~= without_nul(text@.subrange(0, i as int)));
    }
    assert(text@.subrange(0, n as int) =~= text@);
    Ok(kept)
}

/// The text that stands for a device string that is missing.
pub open spec fn unknown_text() -> Seq<char> {
    seq!['U', 'n', 'k', 'n', 'o', 'w', 'n']
}

fn unknown() -> (r: String)
    ensures
        r@ == unknown_text(),
{
    proof {
        reveal_strlit("Unknown");
        broadcast use vstd::string::group_string_axioms;
    }
    let r = "Unknown".to_string();
    assert(r@ =~= unknown_text());
    r
}

/// A manufacturer or product string as reported, or "Unknown" when the
/// device reports none.
pub fn text_or_unknown(text: Option<String>) -> (r: String)
    ensures
        r@ == match text {
            Some(t) => t@,
            None => unknown_text(),
        },
{
    match text {
        Some(t) => t,
        None => unknown(),
    }
}

/// A serial number as reported, or "Unknown" when the device reports none
/// or an empty one.
pub fn serial_or_unknown(serial: Option<String>) -> (r: String)
    ensures
        r@ == match serial {
            Some(t) => if t@.len() == 0 {
                unknown_text()
            } else {
                t@
            },
            None => unknown_text(),
        },
{
    match serial {
        Some(t) => if t.as_str().is_empty() {
            unknown()
        } else {
            t
        },
        None => unknown(),
    }
}

} // verus!
