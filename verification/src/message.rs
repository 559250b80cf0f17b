//! Channel-voice messages on the wire: one status byte, two data bytes.

use vstd::prelude::*;

verus! {

/// High nibble of the status byte of a note-on message.
pub const NOTE_ON: u8 = 0x90;

/// High nibble of the status byte of a control-change message.
pub const CONTROL_CHANGE: u8 = 0xB0;

/// The status byte of a message of the given kind on a channel: the kind in
/// the high nibble, the low four bits of the channel in the low nibble.
pub open spec fn status_byte(kind: u8, channel: u8) -> u8 {
    kind | (channel & 0x0F)
}

/// The three bytes of a note-on message.
pub open spec fn note_on(note: u8, velocity: u8, channel: u8) -> [u8; 3] {
    [status_byte(NOTE_ON, channel), note, velocity]
}

/// The three bytes of a control-change message.
pub open spec fn control_change(control: u8, value: u8, channel: u8) -> [u8; 3] {
    [status_byte(CONTROL_CHANGE, channel), control, value]
}

/// The two nibbles of a status byte can be read back: the high one is the
/// kind, the low one the low four bits of the channel.
pub proof fn lemma_status_byte_nibbles(kind: u8, channel: u8)
    requires
        kind & 0x0F == 0,
    ensures
        status_byte(kind, channel) & 0xF0 == kind,
        status_byte(kind, channel) & 0x0F == channel & 0x0F,
{
    assert((kind | (channel & 0x0F)) & 0xF0 == kind) by (bit_vector)
        requires
            kind & 0x0F == 0,
    ;
    assert((kind | (channel & 0x0F)) & 0x0F == channel & 0x0F) by (bit_vector)
        requires
            kind & 0x0F == 0,
    ;
}

/// On one of the sixteen channels the mask changes nothing: the status byte
/// is the kind with the channel in its low nibble.
pub proof fn lemma_status_byte_of_channel(kind: u8, channel: u8)
    requires
        kind & 0x0F == 0,
        channel <= 15,
    ensures
        status_byte(kind, channel) == kind | channel,
        status_byte(kind, channel) == kind + channel,
        status_byte(kind, channel) & 0x0F == channel,
{
    assert(kind | (channel & 0x0F) == kind | channel) by (bit_vector)
        requires
            channel <= 15,
    ;
    assert(kind | channel == kind + channel) by (bit_vector)
        requires
            kind & 0x0F == 0,
            channel <= 15,
    ;
    assert((kind | channel) & 0x0F == channel) by (bit_vector)
        requires
            kind & 0x0F == 0,
            channel <= 15,
    ;
}

/// Builds a note-on message. The data bytes are passed through as given; of
/// the channel only the low four bits are used.
pub fn noteon_message(note: u8, velocity: u8, channel: u8) -> (message: [u8; 3])
    ensures
        message == note_on(note, velocity, channel),
        channel <= 15 ==> message@ == seq![0x90u8 | channel, note, velocity],
{
    proof {
        if channel <= 15 {
            assert(0x90u8 & 0x0F == 0) by (bit_vector);
            lemma_status_byte_of_channel(NOTE_ON, channel);
        }
    }
    let message: [u8; 3] = [NOTE_ON | (channel & 0x0F), note, velocity];
    message
}

/// Builds a control-change message. The data bytes are passed through as
/// given; of the channel only the low four bits are used.
pub fn cc_message(control: u8, value: u8, channel: u8) -> (message: [u8; 3])
    ensures
        message == control_change(control, value, channel),
        channel <= 15 ==> message@ == seq![0xB0u8 | channel, control, value],
{
    proof {
        if channel <= 15 {
            assert(0xB0u8 & 0x0F == 0) by (bit_vector);
            lemma_status_byte_of_channel(CONTROL_CHANGE, channel);
        }
    }
    let message: [u8; 3] = [CONTROL_CHANGE | (channel & 0x0F), control, value];
    message
}

} // verus!
