//! The fixed batch of SysEx messages.

use vstd::prelude::*;

verus! {

/// The byte that opens a SysEx message.
pub const SYSEX_START: u8 = 0xF0;

/// The byte that closes a SysEx message.
pub const SYSEX_END: u8 = 0xF7;

/// The bytes that every message of the batch begins with: the start
/// marker and the address of the device.
pub open spec fn device_header() -> Seq<u8> {
    seq![0xF0u8, 0x00u8, 0x00u8, 0x66u8, 0x14u8]
}

/// Whether `message` is framed as a SysEx message: it opens with the
/// start marker and closes with the end marker.
pub open spec fn is_sysex(message: Seq<u8>) -> bool {
    &&& message.len() >= 2
    &&& message.first() == SYSEX_START
    &&& message.last() == SYSEX_END
}

/// The messages of the batch, in the order in which they are sent.
pub open spec fn batch() -> Seq<Seq<u8>> {
    seq![
        seq![240u8, 0u8, 0u8, 102u8, 20u8, 114u8, 6u8, 6u8,
            6u8, 6u8, 6u8, 6u8, 6u8, 6u8, 247u8],
        seq![240u8, 0u8, 0u8, 102u8, 20u8, 18u8, 56u8, 80u8,
            97u8, 110u8, 32u8, 32u8, 32u8, 32u8, 247u8],
        seq![240u8, 0u8, 0u8, 102u8, 20u8, 18u8, 63u8, 80u8,
            97u8, 110u8, 32u8, 32u8, 32u8, 32u8, 247u8],
        seq![240u8, 0u8, 0u8, 102u8, 20u8, 18u8, 70u8, 80u8,
            97u8, 110u8, 32u8, 32u8, 32u8, 32u8, 247u8],
        seq![240u8, 0u8, 0u8, 102u8, 20u8, 18u8, 77u8, 80u8,
            97u8, 110u8, 32u8, 32u8, 32u8, 32u8, 247u8],
        seq![240u8, 0u8, 0u8, 102u8, 20u8, 18u8, 84u8, 80u8,
            97u8, 110u8, 32u8, 32u8, 32u8, 32u8, 247u8],
        seq![240u8, 0u8, 0u8, 102u8, 20u8, 18u8, 91u8, 80u8,
            97u8, 110u8, 32u8, 32u8, 32u8, 32u8, 247u8],
        seq![240u8, 0u8, 0u8, 102u8, 20u8, 18u8, 98u8, 80u8,
            97u8, 110u8, 32u8, 32u8, 32u8, 32u8, 247u8],
        seq![240u8, 0u8, 0u8, 102u8, 20u8, 18u8, 105u8, 80u8,
            97u8, 110u8, 32u8, 32u8, 32u8, 32u8, 247u8],
    ]
}

/// The batch, built anew at each call.
pub fn message_batch() -> (messages: Vec<Vec<u8>>)
    ensures
        messages.deep_view() == batch(),
{
    let mut messages: Vec<Vec<u8>> = Vec::new();
    messages.push(vec![240, 0, 0, 102, 20, 114, 6, 6, 6, 6, 6, 6, 6, 6, 247]);
    messages.push(vec![240, 0, 0, 102, 20, 18, 56, 80, 97, 110, 32, 32, 32, 32, 247]);
    messages.push(vec![240, 0, 0, 102, 20, 18, 63, 80, 97, 110, 32, 32, 32, 32, 247]);
    messages.push(vec![240, 0, 0, 102, 20, 18, 70, 80, 97, 110, 32, 32, 32, 32, 247]);
    messages.push(vec![240, 0, 0, 102, 20, 18, 77, 80, 97, 110, 32, 32, 32, 32, 247]);
    messages.push(vec![240, 0, 0, 102, 20, 18, 84, 80, 97, 110, 32, 32, 32, 32, 247]);
    messages.push(vec![240, 0, 0, 102, 20, 18, 91, 80, 97, 110, 32, 32, 32, 32, 247]);
    messages.push(vec![240, 0, 0, 102, 20, 18, 98, 80, 97, 110, 32, 32, 32, 32, 247]);
    messages.push(vec![240, 0, 0, 102, 20, 18, 105, 80, 97, 110, 32, 32, 32, 32, 247]);
    proof {
        let got = messages.deep_view();
        let want = batch();
        assert(got.len() == want.len());
        assert forall|i: int| 0 <= i < 9 implies got[i] == want[i] by {
            assert(got[i] =~= want[i]);
        }
        assert(got =~= want);
    }
    messages
}

/// The batch holds nine messages of fifteen bytes. Each is framed as a
/// SysEx message and begins with the device header.
pub proof fn lemma_batch_is_framed()
    ensures
        batch().len() == 9,
        forall|i: int|
            0 <= i < 9 ==> {
                &&& (#[trigger] batch()[i]).len() == 15
                &&& is_sysex(batch()[i])
                &&& batch()[i].take(5) == device_header()
            },
{
    assert forall|i: int| 0 <= i < 9 implies {
        &&& (#[trigger] batch()[i]).len() == 15
        &&& is_sysex(batch()[i])
        &&& batch()[i].take(5) == device_header()
    } by {
        assert(batch()[i].take(5) =~= device_header());
    }
}

} // verus!
