use sysex_out::batch::{message_batch, SYSEX_END, SYSEX_START};

#[test]
fn the_batch_holds_the_nine_documented_messages() {
    let expected: Vec<Vec<u8>> = vec![
        vec![240, 0, 0, 102, 20, 114, 6, 6, 6, 6, 6, 6, 6, 6, 247],
        vec![240, 0, 0, 102, 20, 18, 56, 80, 97, 110, 32, 32, 32, 32, 247],
        vec![240, 0, 0, 102, 20, 18, 63, 80, 97, 110, 32, 32, 32, 32, 247],
        vec![240, 0, 0, 102, 20, 18, 70, 80, 97, 110, 32, 32, 32, 32, 247],
        vec![240, 0, 0, 102, 20, 18, 77, 80, 97, 110, 32, 32, 32, 32, 247],
        vec![240, 0, 0, 102, 20, 18, 84, 80, 97, 110, 32, 32, 32, 32, 247],
        vec![240, 0, 0, 102, 20, 18, 91, 80, 97, 110, 32, 32, 32, 32, 247],
        vec![240, 0, 0, 102, 20, 18, 98, 80, 97, 110, 32, 32, 32, 32, 247],
        vec![240, 0, 0, 102, 20, 18, 105, 80, 97, 110, 32, 32, 32, 32, 247],
    ];
    assert_eq!(message_batch(), expected);
}

#[test]
fn every_message_is_framed_and_addressed() {
    let batch = message_batch();
    assert_eq!(batch.len(), 9);
    for message in &batch {
        assert_eq!(message.len(), 15);
        assert_eq!(message[0], SYSEX_START);
        assert_eq!(message[0], 0xF0);
        assert_eq!(&message[..5], &[0xF0, 0x00, 0x00, 0x66, 0x14]);
        assert_eq!(message[14], SYSEX_END);
        assert_eq!(message[14], 0xF7);
    }
}

#[test]
fn eight_messages_carry_the_padded_label() {
    let batch = message_batch();
    for message in &batch[1..] {
        assert_eq!(&message[7..14], "Pan    ".as_bytes());
    }
    assert_ne!(&batch[0][7..14], "Pan    ".as_bytes());
}
