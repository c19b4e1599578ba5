use mcpr::mcpr::{write_packet, Packet, ReadablePacketStream, State};

fn stream_of(ids: &[i32]) -> ReadablePacketStream {
    let mut bytes: Vec<u8> = Vec::new();
    for (i, &id) in ids.iter().enumerate() {
        write_packet(&Packet::new(i as u32, id, Vec::new()), &mut bytes);
    }
    ReadablePacketStream::new(State::Login, bytes)
}

#[test]
fn phase_tags_reflect_state_packet_was_read_in() {
    // Login, Login, the Configuration trigger (still tagged Login), one
    // Configuration packet, the Play trigger (still tagged Configuration),
    // then Play for everything after, whatever the identifier.
    let mut s = stream_of(&[0x10, 0x11, 0x02, 0x20, 0x03, 0x30, 0x02]);
    let expected = [
        State::Login,
        State::Login,
        State::Login,
        State::Configuration,
        State::Configuration,
        State::Play,
        State::Play,
    ];
    for want in expected {
        let (tag, _) = s.next().unwrap().unwrap();
        assert_eq!(tag, want);
    }
    assert!(s.next().unwrap().is_none());
}

#[test]
fn phase_stays_login_without_trigger() {
    let mut s = stream_of(&[0x03, 0x30, 0x01]);
    for _ in 0..3 {
        let (tag, _) = s.next().unwrap().unwrap();
        assert_eq!(tag, State::Login);
    }
}

#[test]
fn play_is_terminal() {
    let mut s = stream_of(&[0x02, 0x03, 0x02, 0x03, 0x7f]);
    let tags: Vec<State> = {
        let mut v = Vec::new();
        while let Some((tag, _)) = s.next().unwrap() {
            v.push(tag);
        }
        v
    };
    assert_eq!(
        tags,
        vec![
            State::Login,
            State::Configuration,
            State::Play,
            State::Play,
            State::Play,
        ]
    );
}
