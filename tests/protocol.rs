use piano_rs::address::{Endpoint, IpAddr};
use piano_rs::color::{color_for_id, Color};
use piano_rs::dispatch::{handle_network_receive_event, Reaction};
use piano_rs::event::{NetworkEvent, Note};
use piano_rs::playback::{game_loop, play_from_file, ConfigError, KeyOutcome, PlaybackRecord, Tempo};
use piano_rs::sender::Sender;
use piano_rs::wire::{decode, encode, DecodeError};

fn v4(a: u8, b: u8, c: u8, d: u8, port: u16) -> Endpoint {
    Endpoint::new(IpAddr::V4(u32::from_be_bytes([a, b, c, d])), port)
}

fn ip4(a: u8, b: u8, c: u8, d: u8) -> IpAddr {
    IpAddr::V4(u32::from_be_bytes([a, b, c, d]))
}

fn note(pitch: &str) -> Note {
    Note::new(pitch.as_bytes().to_vec(), Color::Red, 250)
}

fn sample_events() -> Vec<NetworkEvent> {
    vec![
        NetworkEvent::PlayerJoin(0),
        NetworkEvent::PlayerJoin(65535),
        NetworkEvent::Peers(5000, vec![]),
        NetworkEvent::Peers(
            5000,
            vec![
                v4(127, 0, 0, 1, 8000),
                Endpoint::new(IpAddr::V6(0x2001_0db8_0000_0000_0000_0000_0000_0001), 9000),
                v4(10, 0, 0, 2, 1),
            ],
        ),
        NetworkEvent::ID(0),
        NetworkEvent::ID(u64::MAX),
        NetworkEvent::Note(note("c#4")),
        NetworkEvent::Note(Note::new(vec![], Color::White, 0)),
    ]
}

#[test]
fn round_trip_every_variant() {
    for e in sample_events() {
        assert_eq!(decode(&encode(&e)), Ok(e.clone()));
    }
}

#[test]
fn empty_payload_is_rejected() {
    assert_eq!(decode(&[]), Err(DecodeError));
}

#[test]
fn truncated_payloads_are_rejected() {
    for e in sample_events() {
        let bytes = encode(&e);
        for k in 0..bytes.len() {
            assert_eq!(decode(&bytes[..k]), Err(DecodeError));
        }
    }
}

#[test]
fn join_has_exact_layout() {
    let bytes = encode(&NetworkEvent::PlayerJoin(0x1234));
    assert_eq!(bytes, vec![0, 2, 0, 0, 0, 0, 0, 0, 0, 0x34, 0x12]);
}

#[test]
fn id_has_exact_layout() {
    let bytes = encode(&NetworkEvent::ID(5));
    assert_eq!(bytes, vec![2, 8, 0, 0, 0, 0, 0, 0, 0, 5, 0, 0, 0, 0, 0, 0, 0]);
}

#[test]
fn unknown_tag_is_rejected() {
    let mut bytes = encode(&NetworkEvent::PlayerJoin(7));
    bytes[0] = 9;
    assert_eq!(decode(&bytes), Err(DecodeError));
}

#[test]
fn wrong_length_header_is_rejected() {
    let mut bytes = encode(&NetworkEvent::ID(1));
    bytes.push(0);
    assert_eq!(decode(&bytes), Err(DecodeError));
}

#[test]
fn unknown_address_family_is_rejected() {
    let mut bytes = encode(&NetworkEvent::Peers(1, vec![v4(1, 2, 3, 4, 5)]));
    bytes[11] = 5;
    assert_eq!(decode(&bytes), Err(DecodeError));
}

#[test]
fn unknown_color_code_is_rejected() {
    let mut bytes = encode(&NetworkEvent::Note(note("a4")));
    bytes[9] = 200;
    assert_eq!(decode(&bytes), Err(DecodeError));
}

#[test]
fn color_table_is_fixed() {
    assert_eq!(color_for_id(0), Color::Blue);
    assert_eq!(color_for_id(1), Color::Red);
    assert_eq!(color_for_id(2), Color::Green);
    assert_eq!(color_for_id(3), Color::Yellow);
    assert_eq!(color_for_id(4), Color::Cyan);
    assert_eq!(color_for_id(5), Color::Magenta);
    assert_eq!(color_for_id(6), Color::Black);
    assert_eq!(color_for_id(7), Color::Black);
    assert_eq!(color_for_id(u64::MAX), Color::Black);
    assert_eq!(color_for_id(3), color_for_id(3));
}

#[test]
fn tick_without_peers_sends_nothing() {
    let sender = Sender::new(v4(127, 0, 0, 1, 4000));
    assert!(sender.tick(&note("c4")).is_empty());
}

#[test]
fn tick_reaches_every_peer_in_order() {
    let mut sender = Sender::new(v4(127, 0, 0, 1, 4000));
    let mut color = Color::Blue;
    let peers = vec![v4(1, 1, 1, 1, 1), v4(2, 2, 2, 2, 2), v4(3, 3, 3, 3, 3)];
    handle_network_receive_event(&mut sender, &mut color, 4001, NetworkEvent::Peers(1, peers.clone()), ip4(1, 1, 1, 1));
    let n = note("e4");
    let out = sender.tick(&n);
    assert_eq!(out.len(), 3);
    for (d, p) in out.iter().zip(peers.iter()) {
        assert_eq!(d.dest, *p);
        assert_eq!(decode(&d.payload), Ok(NetworkEvent::Note(n.clone())));
    }
}

#[test]
fn register_self_targets_host() {
    let host = v4(192, 168, 0, 1, 4000);
    let sender = Sender::new(host);
    let d = sender.register_self(4100);
    assert_eq!(d.dest, host);
    assert_eq!(decode(&d.payload), Ok(NetworkEvent::PlayerJoin(4100)));
}

#[test]
fn repeated_join_adds_entry_once() {
    let mut sender = Sender::new(v4(127, 0, 0, 1, 4000));
    let mut color = Color::Blue;
    let src = ip4(1, 2, 3, 4);
    for _ in 0..2 {
        let r = handle_network_receive_event(&mut sender, &mut color, 4000, NetworkEvent::PlayerJoin(6000), src);
        match r {
            Reaction::Send(out) => {
                assert_eq!(out.len(), 2);
                assert_eq!(out[0].dest, v4(1, 2, 3, 4, 6000));
                assert_eq!(decode(&out[0].payload), Ok(NetworkEvent::ID(0)));
                assert_eq!(out[1].dest, v4(1, 2, 3, 4, 6000));
                assert_eq!(
                    decode(&out[1].payload),
                    Ok(NetworkEvent::Peers(4000, vec![v4(1, 2, 3, 4, 6000)]))
                );
            }
            other => panic!("unexpected reaction {:?}", other),
        }
    }
    assert_eq!(sender.peer_addrs.snapshot(), vec![v4(1, 2, 3, 4, 6000)]);
    assert_eq!(color, Color::Blue);
}

#[test]
fn second_joiner_gets_next_identity() {
    let mut sender = Sender::new(v4(127, 0, 0, 1, 4000));
    sender.register_remote_socket(4000, v4(127, 0, 0, 1, 4000));
    let out = sender.register_remote_socket(4000, v4(5, 6, 7, 8, 6001));
    assert_eq!(decode(&out[0].payload), Ok(NetworkEvent::ID(1)));
    assert_eq!(out.len(), 3);
    assert_eq!(out[1].dest, v4(127, 0, 0, 1, 4000));
    assert_eq!(out[2].dest, v4(5, 6, 7, 8, 6001));
}

#[test]
fn peers_patch_slot_zero_with_source() {
    let mut sender = Sender::new(v4(9, 9, 9, 9, 5000));
    let mut color = Color::Blue;
    let a = v4(127, 0, 0, 1, 5000);
    let b = v4(10, 0, 0, 2, 6000);
    let c = v4(10, 0, 0, 3, 7000);
    let r = handle_network_receive_event(&mut sender, &mut color, 4000, NetworkEvent::Peers(5000, vec![a, b, c]), ip4(9, 9, 9, 9));
    assert!(matches!(r, Reaction::Nothing));
    assert_eq!(sender.peer_addrs.snapshot(), vec![v4(9, 9, 9, 9, 5000), b, c]);
}

#[test]
fn second_peer_list_replaces_first() {
    let mut sender = Sender::new(v4(9, 9, 9, 9, 5000));
    let mut color = Color::Blue;
    let first = vec![v4(1, 1, 1, 1, 1), v4(2, 2, 2, 2, 2), v4(3, 3, 3, 3, 3)];
    let second = vec![v4(4, 4, 4, 4, 4), v4(5, 5, 5, 5, 5)];
    handle_network_receive_event(&mut sender, &mut color, 4000, NetworkEvent::Peers(5000, first), ip4(9, 9, 9, 9));
    handle_network_receive_event(&mut sender, &mut color, 4000, NetworkEvent::Peers(5001, second), ip4(8, 8, 8, 8));
    assert_eq!(sender.peer_addrs.snapshot(), vec![v4(8, 8, 8, 8, 5001), v4(5, 5, 5, 5, 5)]);
}

#[test]
fn empty_peer_list_empties_directory() {
    let mut sender = Sender::new(v4(9, 9, 9, 9, 5000));
    let mut color = Color::Blue;
    sender.register_remote_socket(4000, v4(1, 1, 1, 1, 1));
    handle_network_receive_event(&mut sender, &mut color, 4000, NetworkEvent::Peers(5000, vec![]), ip4(9, 9, 9, 9));
    assert_eq!(sender.peer_addrs.len(), 0);
}

#[test]
fn identity_sets_local_color() {
    let mut sender = Sender::new(v4(9, 9, 9, 9, 5000));
    let mut color = Color::Blue;
    let r = handle_network_receive_event(&mut sender, &mut color, 4000, NetworkEvent::ID(2), ip4(9, 9, 9, 9));
    assert!(matches!(r, Reaction::Nothing));
    assert_eq!(color, Color::Green);
    handle_network_receive_event(&mut sender, &mut color, 4000, NetworkEvent::ID(6), ip4(9, 9, 9, 9));
    assert_eq!(color, Color::Black);
    assert_eq!(sender.peer_addrs.len(), 0);
}

#[test]
fn remote_note_is_played() {
    let mut sender = Sender::new(v4(9, 9, 9, 9, 5000));
    let mut color = Color::Blue;
    let n = note("g3");
    match handle_network_receive_event(&mut sender, &mut color, 4000, NetworkEvent::Note(n.clone()), ip4(9, 9, 9, 9)) {
        Reaction::Play(p) => assert_eq!(p, n),
        other => panic!("unexpected reaction {:?}", other),
    }
    assert_eq!(color, Color::Blue);
}

#[test]
fn tempo_two_halves_delay() {
    let tempo = Tempo::new(2000).unwrap();
    let record = PlaybackRecord { pitch: b"a4".to_vec(), duration_ms: 300, delay_ms: 100 };
    let (wait, n) = play_from_file(&tempo, record, Color::Cyan);
    assert_eq!(wait, 50);
    assert_eq!(n, Note::new(b"a4".to_vec(), Color::Cyan, 300));
}

#[test]
fn tempo_half_doubles_delay() {
    let tempo = Tempo::new(500).unwrap();
    assert_eq!(tempo.scaled_delay_ms(100), 200);
    assert_eq!(tempo.scaled_delay_ms(0), 0);
}

#[test]
fn tempo_delay_saturates() {
    let tempo = Tempo::new(1).unwrap();
    assert_eq!(tempo.scaled_delay_ms(u64::MAX), u64::MAX);
}

#[test]
fn zero_tempo_is_rejected() {
    assert_eq!(Tempo::new(0), Err(ConfigError::NonPositiveTempo));
    assert_eq!(Tempo::new(1).map(|t| t.per_mille()), Ok(1));
}

#[test]
fn input_loop_turns() {
    let mut sender = Sender::new(v4(9, 9, 9, 9, 5000));
    sender.register_remote_socket(4000, v4(1, 1, 1, 1, 1));
    assert!(game_loop(&sender, KeyOutcome::Quit).is_none());
    assert_eq!(game_loop(&sender, KeyOutcome::Ignored).map(|v| v.len()), Some(0));
    let out = game_loop(&sender, KeyOutcome::Note(note("b4"))).unwrap();
    assert_eq!(out.len(), 1);
    assert_eq!(out[0].dest, v4(1, 1, 1, 1, 1));
}
