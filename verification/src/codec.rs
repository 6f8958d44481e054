//! Notification frames of the strain gauge, as they arrive on the data
//! characteristic.
//!
//! A frame starts with an opcode byte and a reserved byte. A payload of one or
//! two little-endian 32-bit words follows, depending on the opcode.

use vstd::prelude::*;

verus! {

/// Opcode of a battery voltage sample.
pub const OPCODE_BATTERY: u8 = 0;

/// Opcode of a weight measurement.
pub const OPCODE_WEIGHT: u8 = 1;

/// Opcode of a low-power warning.
pub const OPCODE_LOW_POWER: u8 = 4;

/// One weight reading: the IEEE-754 binary32 bit pattern of the weight and the
/// device's running counter.
#[derive(Clone, Copy, Debug, PartialEq, Eq, Structural)]
pub struct WeightSample {
    pub value: u32,
    pub counter: u32,
}

/// What one notification says.
#[derive(Clone, Copy, Debug, PartialEq, Eq, Structural)]
pub enum TelemetryFrame {
    WeightMeasurement(WeightSample),
    BatteryVoltageSample { raw: u32 },
    LowPowerWarning,
}

/// The number that four bytes starting at `at` spell, least significant byte
/// first.
pub open spec fn le_word(s: Seq<u8>, at: int) -> int {
    s[at] + 0x100 * s[at + 1] + 0x1_0000 * s[at + 2] + 0x100_0000 * s[at + 3]
}

/// Byte `k` (0 is the least significant) of a 32-bit word.
pub open spec fn word_byte(word: u32, k: nat) -> u8 {
    if k == 0 {
        (word % 0x100) as u8
    } else if k == 1 {
        (word / 0x100 % 0x100) as u8
    } else if k == 2 {
        (word / 0x1_0000 % 0x100) as u8
    } else {
        (word / 0x100_0000 % 0x100) as u8
    }
}

/// The four bytes of a word, least significant first.
pub open spec fn le_bytes(word: u32) -> Seq<u8> {
    seq![word_byte(word, 0), word_byte(word, 1), word_byte(word, 2), word_byte(word, 3)]
}

/// How many bytes a frame with this opcode must have at least, if the opcode
/// is known.
pub open spec fn required_len(opcode: u8) -> Option<nat> {
    if opcode == OPCODE_BATTERY {
        Some(6)
    } else if opcode == OPCODE_WEIGHT {
        Some(10)
    } else if opcode == OPCODE_LOW_POWER {
        Some(1)
    } else {
        None
    }
}

/// The frame that a buffer holds: none when it is empty, when its opcode is
/// unknown, or when it is too short for its opcode.
pub open spec fn decode_spec(s: Seq<u8>) -> Option<TelemetryFrame> {
    if s.len() == 0 {
        None
    } else {
        match required_len(s[0]) {
            Some(n) if s.len() >= n => Some(
                if s[0] == OPCODE_BATTERY {
                    TelemetryFrame::BatteryVoltageSample { raw: le_word(s, 2) as u32 }
                } else if s[0] == OPCODE_WEIGHT {
                    TelemetryFrame::WeightMeasurement(
                        WeightSample { value: le_word(s, 2) as u32, counter: le_word(s, 6) as u32 },
                    )
                } else {
                    TelemetryFrame::LowPowerWarning
                },
            ),
            _ => None,
        }
    }
}

/// The buffer that spells a frame, with the reserved byte cleared.
pub open spec fn encode_spec(frame: TelemetryFrame) -> Seq<u8> {
    match frame {
        TelemetryFrame::BatteryVoltageSample { raw } => seq![OPCODE_BATTERY, 0u8] + le_bytes(raw),
        TelemetryFrame::WeightMeasurement(sample) => seq![OPCODE_WEIGHT, 0u8] + le_bytes(
            sample.value,
        ) + le_bytes(sample.counter),
        TelemetryFrame::LowPowerWarning => seq![OPCODE_LOW_POWER, 0u8],
    }
}

/// Four bytes never spell more than a 32-bit word holds.
pub proof fn lemma_le_word_fits(s: Seq<u8>, at: int)
    requires
        0 <= at,
        at + 4 <= s.len(),
    ensures
        0 <= le_word(s, at) <= u32::MAX,
{
}

/// Spelling a word and reading it back gives the word.
pub proof fn lemma_le_word_of_le_bytes(word: u32)
    ensures
        le_bytes(word).len() == 4,
        le_word(le_bytes(word), 0) == word,
{
}

fn read_le_word(bytes: &[u8], at: usize) -> (word: u32)
    requires
        at + 4 <= bytes@.len(),
    ensures
        word == le_word(bytes@, at as int),
{
    let b0: u32 = bytes[at] as u32;
    let b1: u32 = bytes[at + 1] as u32;
    let b2: u32 = bytes[at + 2] as u32;
    let b3: u32 = bytes[at + 3] as u32;
    b0 + 0x100 * b1 + 0x1_0000 * b2 + 0x100_0000 * b3
}

/// Parses one notification buffer. Malformed input is no error: it gives no
/// frame.
pub fn decode(bytes: &[u8]) -> (frame: Option<TelemetryFrame>)
    ensures
        frame == decode_spec(bytes@),
{
    if bytes.len() == 0 {
        return None;
    }
    let opcode: u8 = bytes[0];
    if opcode == OPCODE_BATTERY {
        if bytes.len() < 6 {
            return None;
        }
        Some(TelemetryFrame::BatteryVoltageSample { raw: read_le_word(bytes, 2) })
    } else if opcode == OPCODE_WEIGHT {
        if bytes.len() < 10 {
            return None;
        }
        let value: u32 = read_le_word(bytes, 2);
        let counter: u32 = read_le_word(bytes, 6);
        Some(TelemetryFrame::WeightMeasurement(WeightSample { value, counter }))
    } else if opcode == OPCODE_LOW_POWER {
        Some(TelemetryFrame::LowPowerWarning)
    } else {
        None
    }
}

fn push_le_word(out: &mut Vec<u8>, word: u32)
    ensures
        final(out)@ == old(out)@ + le_bytes(word),
{
    out.push((word % 0x100) as u8);
    out.push((word / 0x100 % 0x100) as u8);
    out.push((word / 0x1_0000 % 0x100) as u8);
    out.push((word / 0x100_0000 % 0x100) as u8);
    assert(out@ =~= old(out)@ + le_bytes(word));
}

/// Spells a frame as the device would send it, with the reserved byte
/// cleared.
pub fn encode(frame: &TelemetryFrame) -> (bytes: Vec<u8>)
    ensures
        bytes@ == encode_spec(*frame),
{
    let mut bytes: Vec<u8> = Vec::new();
    match frame {
        TelemetryFrame::BatteryVoltageSample { raw } => {
            bytes.push(OPCODE_BATTERY);
            bytes.push(0);
            push_le_word(&mut bytes, *raw);
        },
        TelemetryFrame::WeightMeasurement(sample) => {
            bytes.push(OPCODE_WEIGHT);
            bytes.push(0);
            push_le_word(&mut bytes, sample.value);
            push_le_word(&mut bytes, sample.counter);
        },
        TelemetryFrame::LowPowerWarning => {
            bytes.push(OPCODE_LOW_POWER);
            bytes.push(0);
        },
    }
    assert(bytes@ =~= encode_spec(*frame));
    bytes
}

/// Reading a word out of a buffer depends on its four bytes alone.
proof fn lemma_le_word_at(s: Seq<u8>, at: int, word: u32)
    requires
        0 <= at,
        at + 4 <= s.len(),
        s.subrange(at, at + 4) == le_bytes(word),
    ensures
        le_word(s, at) == word,
{
    let w = s.subrange(at, at + 4);
    assert(w[0] == s[at] && w[1] == s[at + 1] && w[2] == s[at + 2] && w[3] == s[at + 3]);
    lemma_le_word_of_le_bytes(word);
}

/// Decoding what the encoder wrote gives the frame back, whatever the frame.
pub proof fn lemma_decode_inverts_encode(frame: TelemetryFrame)
    ensures
        decode_spec(encode_spec(frame)) == Some(frame),
{
    let s = encode_spec(frame);
    match frame {
        TelemetryFrame::BatteryVoltageSample { raw } => {
            assert(s.subrange(2, 6) =~= le_bytes(raw));
            lemma_le_word_at(s, 2, raw);
        },
        TelemetryFrame::WeightMeasurement(sample) => {
            assert(s.subrange(2, 6) =~= le_bytes(sample.value));
            assert(s.subrange(6, 10) =~= le_bytes(sample.counter));
            lemma_le_word_at(s, 2, sample.value);
            lemma_le_word_at(s, 6, sample.counter);
        },
        TelemetryFrame::LowPowerWarning => {},
    }
}

/// A weight frame of ten bytes or more always decodes, to the two words at
/// offsets 2 and 6; bytes beyond the tenth do not matter.
pub proof fn lemma_decode_weight(s: Seq<u8>)
    requires
        s.len() >= 10,
        s[0] == OPCODE_WEIGHT,
    ensures
        decode_spec(s) == Some(
            TelemetryFrame::WeightMeasurement(
                WeightSample { value: le_word(s, 2) as u32, counter: le_word(s, 6) as u32 },
            ),
        ),
        le_word(s, 2) as u32 == le_word(s, 2),
        le_word(s, 6) as u32 == le_word(s, 6),
{
    lemma_le_word_fits(s, 2);
    lemma_le_word_fits(s, 6);
}

/// A buffer gives a frame exactly when it is not empty, its opcode is known
/// and it is long enough for that opcode.
pub proof fn lemma_decode_some_iff(s: Seq<u8>)
    ensures
        decode_spec(s) is Some <==> s.len() > 0 && (required_len(s[0]) matches Some(n) && s.len()
            >= n),
{
}

/// Every buffer shorter than ten bytes whose opcode says weight, and every
/// buffer shorter than six whose opcode says battery, gives no frame; so does
/// every buffer with another opcode than the three known ones.
pub proof fn lemma_decode_rejects(s: Seq<u8>)
    requires
        s.len() == 0 || (s[0] == OPCODE_WEIGHT && s.len() < 10) || (s[0] == OPCODE_BATTERY
            && s.len() < 6) || (s[0] != OPCODE_WEIGHT && s[0] != OPCODE_BATTERY && s[0]
            != OPCODE_LOW_POWER),
    ensures
        decode_spec(s) is None,
{
}

} // verus!
