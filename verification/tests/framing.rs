use tdlib_rs::client::Client;
use tdlib_rs::client::ClientBuilder;
use tdlib_rs::client::ClientError;
use tdlib_rs::client::RecvMessage;
use tdlib_rs::client::RecvStep;
use tdlib_rs::client::TransportType;
use tdlib_rs::objects::traits::Serialize;
use tdlib_rs::objects::DeserializeError;

fn done(step: RecvStep) -> Result<Vec<u8>, ClientError> {
    match step {
        RecvStep::Done(Ok(payload)) => Ok(payload.to_vec()),
        RecvStep::Done(Err(e)) => Err(e),
        RecvStep::Read(n) => panic!("the receiver asks for {} more bytes", n),
    }
}

fn need(step: RecvStep) -> usize {
    match step {
        RecvStep::Read(n) => n,
        RecvStep::Done(_) => panic!("the receiver is done"),
    }
}

fn client(transport: TransportType) -> Client {
    ClientBuilder::new().transport_type(transport).build()
}

#[test]
fn builder_starts_with_the_full_transport_over_tcp() {
    let builder = ClientBuilder::new();
    assert!(!builder.is_no_delay());
    assert!(!builder.is_udp());
    assert_eq!(builder.build().transport_type(), TransportType::Full);
    let builder = ClientBuilder::new()
        .no_delay(true)
        .use_udp(true)
        .transport_type(TransportType::Abridged);
    assert!(builder.is_no_delay());
    assert!(builder.is_udp());
    assert_eq!(builder.build().transport_type(), TransportType::Abridged);
    let builder = ClientBuilder::new().no_delay(true).no_delay(false).use_udp(false);
    assert!(!builder.is_no_delay());
    assert!(!builder.is_udp());
}

#[test]
fn only_the_full_transport_is_full() {
    assert!(TransportType::Full.is_full());
    assert!(!TransportType::Abridged.is_full());
    assert!(!TransportType::Intermediate.is_full());
    assert!(!TransportType::PaddedIntermediate.is_full());
}

#[test]
fn each_transport_opens_with_its_own_bytes() {
    assert_eq!(TransportType::Abridged.init_bytes(), vec![0xef]);
    assert_eq!(TransportType::Intermediate.init_bytes(), vec![0xee; 4]);
    assert_eq!(TransportType::PaddedIntermediate.init_bytes(), vec![0xdd; 4]);
    assert_eq!(TransportType::Full.init_bytes(), Vec::<u8>::new());
}

#[test]
fn abridged_frame_has_its_length_in_quads() {
    let data = vec![1u8, 2, 3, 4, 5, 6, 7, 8];
    let frame = TransportType::Abridged.frame(0, &data, &[]).unwrap();
    assert_eq!(frame[0], 2);
    assert_eq!(&frame[1..], &data[..]);
    let data = vec![9u8; 504];
    let frame = TransportType::Abridged.frame(0, &data, &[]).unwrap();
    assert_eq!(frame[0], 126);
    assert_eq!(frame.len(), 505);
    let data = vec![9u8; 508];
    let frame = TransportType::Abridged.frame(0, &data, &[]).unwrap();
    assert_eq!(&frame[0..4], &[0x7f, 127, 0, 0]);
    assert_eq!(&frame[4..], &data[..]);
    let data = vec![9u8; 4000];
    let frame = TransportType::Abridged.frame(0, &data, &[]).unwrap();
    assert_eq!(&frame[0..4], &[0x7f, 0xe8, 0x03, 0]);
    let frame = TransportType::Abridged.frame(0, &[], &[]).unwrap();
    assert_eq!(frame, vec![0]);
}

#[test]
fn abridged_payload_must_be_whole_quads() {
    assert_eq!(
        TransportType::Abridged.frame(0, &[1, 2, 3], &[]).unwrap_err(),
        ClientError::InvalidLength
    );
    assert_eq!(
        TransportType::Abridged.frame(0, &[1, 2, 3, 4, 5], &[]).unwrap_err(),
        ClientError::InvalidLength
    );
    assert!(TransportType::Intermediate.frame(0, &[1, 2, 3], &[]).is_ok());
    assert!(TransportType::PaddedIntermediate.frame(0, &[1, 2, 3], &[]).is_ok());
    assert!(TransportType::Full.frame(0, &[1, 2, 3], &[]).is_ok());
}

#[test]
fn intermediate_frame_has_its_length_in_four_bytes() {
    let frame = TransportType::Intermediate.frame(5, &[1, 2, 3], &[0xaa]).unwrap();
    assert_eq!(frame, vec![3, 0, 0, 0, 1, 2, 3]);
    let data = vec![7u8; 0x10203];
    let frame = TransportType::Intermediate.frame(5, &data, &[]).unwrap();
    assert_eq!(&frame[0..4], &[3, 2, 1, 0]);
    assert_eq!(frame.len(), 4 + 0x10203);
}

#[test]
fn padded_frame_counts_its_padding() {
    let frame = TransportType::PaddedIntermediate
        .frame(0, &[1, 2, 3], &[0xaa, 0xbb])
        .unwrap();
    assert_eq!(frame, vec![5, 0, 0, 0, 1, 2, 3, 0xaa, 0xbb]);
    assert_eq!(
        done(TransportType::PaddedIntermediate.receive(&frame)).unwrap(),
        vec![1, 2, 3, 0xaa, 0xbb]
    );
}

#[test]
fn full_frame_has_length_sequence_number_and_checksum() {
    let frame = TransportType::Full
        .frame(0, &[1, 2, 3, 4, 5, 6, 7, 8], &[])
        .unwrap();
    assert_eq!(
        frame,
        vec![
            0x14, 0, 0, 0, 0, 0, 0, 0, 1, 2, 3, 4, 5, 6, 7, 8, 0xe0, 0x6e, 0x45, 0x84
        ]
    );
    let frame = TransportType::Full.frame(1, &[], &[]).unwrap();
    assert_eq!(
        frame,
        vec![0x0c, 0, 0, 0, 1, 0, 0, 0, 0x43, 0xad, 0x31, 0x8a]
    );
    let data = b"123456789";
    let frame = TransportType::Full.frame(7, data, &[]).unwrap();
    let n = frame.len();
    assert_eq!(
        u32::from_le_bytes([frame[n - 4], frame[n - 3], frame[n - 2], frame[n - 1]]),
        crc32fast::hash(&frame[..n - 4])
    );
    assert_eq!(&frame[4..8], &[7, 0, 0, 0]);
}

#[test]
fn frames_come_back_from_every_transport() {
    let data: Vec<u8> = (0..200u8).collect();
    for transport in [
        TransportType::Abridged,
        TransportType::Intermediate,
        TransportType::PaddedIntermediate,
        TransportType::Full,
    ] {
        let frame = transport.frame(3, &data, &[]).unwrap();
        assert_eq!(done(transport.receive(&frame)).unwrap(), data);
        let mut longer = frame.clone();
        longer.extend_from_slice(&[1, 2, 3]);
        assert_eq!(done(transport.receive(&longer)).unwrap(), data);
    }
    let data = vec![3u8; 1024];
    let frame = TransportType::Abridged.frame(0, &data, &[]).unwrap();
    assert_eq!(done(TransportType::Abridged.receive(&frame)).unwrap(), data);
}

#[test]
fn receiver_asks_for_the_header_and_then_for_the_rest() {
    let data = vec![5u8; 16];
    let frame = TransportType::Full.frame(0, &data, &[]).unwrap();
    assert_eq!(need(TransportType::Full.receive(&[])), 8);
    assert_eq!(need(TransportType::Full.receive(&frame[..3])), 5);
    assert_eq!(need(TransportType::Full.receive(&frame[..8])), 20);
    assert_eq!(need(TransportType::Full.receive(&frame[..27])), 1);
    assert_eq!(need(TransportType::Intermediate.receive(&[])), 4);
    assert_eq!(need(TransportType::Intermediate.receive(&[8, 0, 0, 0])), 8);
    assert_eq!(need(TransportType::PaddedIntermediate.receive(&[8])), 3);
    assert_eq!(need(TransportType::Abridged.receive(&[])), 1);
    assert_eq!(need(TransportType::Abridged.receive(&[2])), 8);
    assert_eq!(need(TransportType::Abridged.receive(&[0x7f])), 3);
    assert_eq!(need(TransportType::Abridged.receive(&[0x7f, 0, 1, 0])), 1024);
    assert_eq!(
        done(TransportType::Abridged.receive(&[0])).unwrap(),
        Vec::<u8>::new()
    );
}

#[test]
fn wrong_checksum_is_refused() {
    let frame = TransportType::Full.frame(0, &[1, 2, 3, 4, 5, 6, 7, 8], &[]).unwrap();
    for at in 0..frame.len() {
        if at < 4 {
            continue;
        }
        let mut bad = frame.clone();
        bad[at] ^= 0x10;
        assert_eq!(
            done(TransportType::Full.receive(&bad)).unwrap_err(),
            ClientError::Crc32CheckFailed
        );
    }
}

#[test]
fn full_frame_shorter_than_its_own_header_is_refused() {
    assert_eq!(
        done(TransportType::Full.receive(&[11, 0, 0, 0, 0, 0, 0, 0])).unwrap_err(),
        ClientError::InvalidLength
    );
    assert_eq!(
        done(TransportType::Full.receive(&[4, 0, 0, 0, 0, 0, 0, 0])).unwrap_err(),
        ClientError::InvalidLength
    );
}

#[test]
fn payload_of_four_bytes_is_an_error_code() {
    let code = (-404i32).to_le_bytes();
    for transport in [
        TransportType::Abridged,
        TransportType::Intermediate,
        TransportType::PaddedIntermediate,
        TransportType::Full,
    ] {
        let frame = transport.frame(0, &code, &[]).unwrap();
        assert_eq!(
            done(transport.receive(&frame)).unwrap_err(),
            ClientError::ServerError(-404)
        );
    }
    let frame = TransportType::Intermediate.frame(0, &429i32.to_le_bytes(), &[]).unwrap();
    assert_eq!(
        done(TransportType::Intermediate.receive(&frame)).unwrap_err(),
        ClientError::ServerError(429)
    );
}

#[test]
fn client_that_has_sent_nothing_receives_nothing() {
    let c = client(TransportType::Intermediate);
    assert_eq!(
        done(c.recv(&[0, 0, 0, 0])).unwrap_err(),
        ClientError::NotInitialized
    );
}

#[test]
fn first_send_opens_the_connection_and_later_sends_do_not() {
    let mut c = client(TransportType::Intermediate);
    let first = c.send_unencrypted(&5i32, 1).unwrap();
    let mut expected = vec![0xee, 0xee, 0xee, 0xee, 24, 0, 0, 0];
    expected.extend_from_slice(&[0u8; 8]);
    expected.extend_from_slice(&[0, 0, 0, 0, 1, 0, 0, 0]);
    expected.extend_from_slice(&[4, 0, 0, 0, 5, 0, 0, 0]);
    assert_eq!(first, expected);
    let second = c.send_unencrypted(&5i32, 1).unwrap();
    assert_eq!(second, expected[4..].to_vec());
    assert_eq!(done(c.recv(&second)).unwrap(), expected[8..].to_vec());
}

#[test]
fn message_id_is_the_seconds_shifted_by_32_bits() {
    let mut c = client(TransportType::Intermediate);
    let out = c.send_unencrypted(&0i32, 0x1_0000_0002).unwrap();
    assert_eq!(&out[16..24], &[0, 0, 0, 0, 2, 0, 0, 0]);
}

#[test]
fn full_transport_numbers_its_frames_from_zero() {
    let mut c = client(TransportType::Full);
    for expected in 0u32..4 {
        let out = c.send_unencrypted(&1i64, 0).unwrap();
        assert_eq!(&out[4..8], &expected.to_le_bytes());
        let inner = done(c.recv(&out)).unwrap();
        assert_eq!(&inner[20..], &1i64.serialize_to_vec()[..]);
    }
    let mut c = client(TransportType::Abridged);
    let a = c.send_unencrypted(&1i64, 0).unwrap();
    let b = c.send_unencrypted(&1i64, 0).unwrap();
    assert_eq!(a[0], 0xef);
    assert_eq!(&a[1..], &b[..]);
}

#[test]
fn padded_transport_adds_up_to_15_bytes() {
    let c = client(TransportType::PaddedIntermediate);
    let data = vec![1u8; 40];
    for _ in 0..50 {
        let frame = c.gen_payload(data.clone()).unwrap();
        let announced = u32::from_le_bytes([frame[0], frame[1], frame[2], frame[3]]) as usize;
        assert_eq!(announced + 4, frame.len());
        assert!(announced >= 40 && announced <= 55);
        assert_eq!(&frame[4..44], &data[..]);
    }
    let c = client(TransportType::Abridged);
    assert_eq!(
        c.gen_payload(vec![1, 2, 3]).unwrap_err(),
        ClientError::InvalidLength
    );
}

#[test]
fn message_is_read_out_of_its_frame() {
    let mut c = client(TransportType::Full);
    let out = c.send_unencrypted(&Box::new(5i32), 3).unwrap();
    match c.recv_unecrypted(&out[..10]) {
        RecvMessage::Read(n) => assert_eq!(n, out.len() - 10),
        RecvMessage::Done(_) => panic!("the frame is not complete"),
    }
    match c.recv_unecrypted(&out) {
        RecvMessage::Done(Ok(message)) => {
            assert_eq!(message.auth_key_id, 0);
            assert_eq!(message.message_id, 3 << 32);
            assert_eq!(
                message.payload.to_vec(),
                vec![0xda, 0x9b, 0x50, 0xa8, 5, 0, 0, 0]
            );
        }
        _ => panic!("the frame holds a message"),
    }
    let short = TransportType::Full.frame(1, &[1, 2, 3, 4, 5], &[]).unwrap();
    match c.recv_unecrypted(&short) {
        RecvMessage::Done(Err(e)) => {
            assert_eq!(e, ClientError::DeserializeError(DeserializeError::IoError))
        }
        _ => panic!("five bytes are no message"),
    }
    let code = TransportType::Full.frame(1, &[1, 0, 0, 0], &[]).unwrap();
    match c.recv_unecrypted(&code) {
        RecvMessage::Done(Err(e)) => assert_eq!(e, ClientError::ServerError(1)),
        _ => panic!("four bytes are an error code"),
    }
    let fresh = client(TransportType::Full);
    match fresh.recv_unecrypted(&out) {
        RecvMessage::Done(Err(e)) => assert_eq!(e, ClientError::NotInitialized),
        _ => panic!("nothing was sent yet"),
    }
}
