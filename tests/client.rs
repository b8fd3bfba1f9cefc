use std::borrow::Cow;

use mc_client::codec::Frame;
use mc_client::connection::{
    Connection, Next, BLOCK_UPDATE_ID, CHAT_MESSAGE_ID, CHUNK_DATA_ID, DISCONNECT_ID,
    GAME_MESSAGE_ID, KEEP_ALIVE_ID, LOGIN_COMPRESSION_ID, LOGIN_DISCONNECT_ID, LOGIN_SUCCESS_ID,
    PROTOCOL_VERSION,
};
use mc_client::events::{ApplicationEvent, ChunkBlockData, ChunkPosition};
use mc_client::status::ConnectionStatus;
use mc_client::session::{contains_seq, ConnectionState, Inbound, Outbound, Session};
use valence_protocol::block::{BlockState, PropName, PropValue};
use valence_protocol::nbt::Compound;
use valence_protocol::packets::handshaking::HandshakeC2s;
use valence_protocol::packets::login::{
    LoginCompressionS2c, LoginDisconnectS2c, LoginHelloC2s, LoginSuccessS2c,
};
use valence_protocol::packets::play::{
    BlockUpdateS2c, ChatMessageC2s, ChatMessageS2c, ChunkDataS2c, DisconnectS2c, GameMessageS2c,
    KeepAliveC2s, KeepAliveS2c,
};
use valence_protocol::packets::play::chat_message_s2c::MessageFilterType;
use valence_protocol::text::Text;
use valence_protocol::uuid::Uuid;
use valence_protocol::{BlockPos, ChunkPos, Encode, Packet, PacketDecoder, PacketEncoder, VarInt};

fn wire<P: Packet + Encode>(threshold: Option<u32>, p: &P) -> Vec<u8> {
    let mut enc = PacketEncoder::new();
    enc.set_compression(threshold);
    enc.append_packet(p).unwrap();
    enc.take().to_vec()
}

fn login_success() -> LoginSuccessS2c<'static> {
    LoginSuccessS2c { uuid: Uuid::nil(), username: "ESP32-S3", properties: Cow::Borrowed(&[]) }
}

/// Feeds bytes and dispatches every complete frame, collecting what the
/// connection asks to publish and to write.
fn drive(c: &mut Connection, bytes: &[u8]) -> (Vec<ApplicationEvent>, Vec<Vec<u8>>) {
    let mut events = Vec::new();
    let mut sends = Vec::new();
    c.receive(bytes);
    loop {
        match c.next_frame() {
            Next::Frame(f) => {
                let step = c.handle_frame(&f);
                events.extend(step.events);
                sends.extend(step.sends);
            }
            Next::NeedMore => break,
            Next::Failed(evs) => {
                events.extend(evs);
                break;
            }
        }
    }
    (events, sends)
}

/// A connection that has opened and logged in, with the given compression.
fn playing(threshold: Option<u32>) -> Connection {
    let mut c = Connection::new();
    let step = c.open("127.0.0.1", 25565, "ESP32-S3");
    assert_eq!(step.events, vec![ApplicationEvent::Connected]);
    let mut bytes = Vec::new();
    if let Some(t) = threshold {
        bytes.extend(wire(None, &LoginCompressionS2c { threshold: VarInt(t as i32) }));
    }
    bytes.extend(wire(threshold, &login_success()));
    let (events, sends) = drive(&mut c, &bytes);
    assert!(events.is_empty());
    assert!(sends.is_empty());
    assert_eq!(c.state(), ConnectionState::Play);
    assert_eq!(c.threshold(), threshold);
    c
}

fn decode_all(threshold: Option<u32>, bytes: &[u8]) -> Vec<(i32, Vec<u8>)> {
    let mut dec = PacketDecoder::new();
    dec.set_compression(threshold);
    dec.queue_slice(bytes);
    let mut out = Vec::new();
    while let Some(f) = dec.try_next_packet().unwrap() {
        out.push((f.id, f.body.to_vec()));
    }
    out
}

fn game_message(text: &str) -> Vec<u8> {
    wire(None, &GameMessageS2c { chat: Cow::Owned(Text::text(text.to_string())), overlay: false })
}

#[test]
fn packet_ids_match_the_codec() {
    assert_eq!(LOGIN_DISCONNECT_ID, LoginDisconnectS2c::ID);
    assert_eq!(LOGIN_SUCCESS_ID, LoginSuccessS2c::ID);
    assert_eq!(LOGIN_COMPRESSION_ID, LoginCompressionS2c::ID);
    assert_eq!(BLOCK_UPDATE_ID, BlockUpdateS2c::ID);
    assert_eq!(DISCONNECT_ID, DisconnectS2c::ID);
    assert_eq!(KEEP_ALIVE_ID, KeepAliveS2c::ID);
    assert_eq!(CHUNK_DATA_ID, ChunkDataS2c::ID);
    assert_eq!(CHAT_MESSAGE_ID, ChatMessageS2c::ID);
    assert_eq!(GAME_MESSAGE_ID, GameMessageS2c::ID);
    assert_eq!(PROTOCOL_VERSION, valence_protocol::PROTOCOL_VERSION);
}

#[test]
fn scenario_connect_refused() {
    let mut c = Connection::new();
    let events = c.close("connection refused".to_string());
    assert_eq!(events, vec![ApplicationEvent::Disconnected("connection refused".to_string())]);
    assert!(c.is_closed());
    let step = c.open("127.0.0.1", 25565, "ESP32-S3");
    assert!(step.events.is_empty());
    assert!(step.sends.is_empty());
    assert!(c.close("again".to_string()).is_empty());
}

#[test]
fn open_sends_handshake_then_login_start() {
    let mut c = Connection::new();
    let step = c.open("127.0.0.1", 25566, "ESP32-S3");
    assert_eq!(step.events, vec![ApplicationEvent::Connected]);
    assert_eq!(step.sends.len(), 2);
    let hs = decode_all(None, &step.sends[0]);
    assert_eq!(hs.len(), 1);
    assert_eq!(hs[0].0, HandshakeC2s::ID);
    let frame = valence_protocol::decode::PacketFrame { id: hs[0].0, body: hs[0].1.as_slice().into() };
    let p: HandshakeC2s = frame.decode().unwrap();
    assert_eq!(p.protocol_version.0, 763);
    assert_eq!(p.server_address, "127.0.0.1");
    assert_eq!(p.server_port, 25566);
    let lg = decode_all(None, &step.sends[1]);
    let frame = valence_protocol::decode::PacketFrame { id: lg[0].0, body: lg[0].1.as_slice().into() };
    let p: LoginHelloC2s = frame.decode().unwrap();
    assert_eq!(p.username, "ESP32-S3");
    assert!(p.profile_id.is_none());
    assert_eq!(c.state(), ConnectionState::LoginSent);
    let again = c.open("127.0.0.1", 25566, "ESP32-S3");
    assert!(again.events.is_empty() && again.sends.is_empty());
}

#[test]
fn scenario_compression_login_then_server_closes() {
    let mut c = Connection::new();
    let mut events = c.open("127.0.0.1", 25565, "ESP32-S3").events;
    let mut bytes = wire(None, &LoginCompressionS2c { threshold: VarInt(256) });
    bytes.extend(wire(Some(256), &login_success()));
    let (evs, sends) = drive(&mut c, &bytes);
    events.extend(evs);
    assert!(sends.is_empty());
    assert_eq!(c.threshold(), Some(256));
    assert_eq!(c.state(), ConnectionState::Play);
    events.extend(c.end_of_stream());
    assert_eq!(
        events,
        vec![
            ApplicationEvent::Connected,
            ApplicationEvent::Disconnected("server closed connection".to_string())
        ]
    );
}

#[test]
fn scenario_chat_trigger_gets_one_reply_each_time() {
    let mut c = playing(None);
    let bytes = game_message("How are you?");
    for _ in 0..2 {
        let (events, sends) = drive(&mut c, &bytes);
        assert_eq!(events.len(), 1);
        match &events[0] {
            ApplicationEvent::ChatMessage(t) => assert!(t.contains("How are you?")),
            other => panic!("unexpected event {:?}", other),
        }
        assert_eq!(sends.len(), 1);
        let out = decode_all(None, &sends[0]);
        assert_eq!(out.len(), 1);
        assert_eq!(out[0].0, ChatMessageC2s::ID);
        let frame = valence_protocol::decode::PacketFrame { id: out[0].0, body: out[0].1.as_slice().into() };
        let p: ChatMessageC2s = frame.decode().unwrap();
        assert_eq!(p.message, "I feel good. I'm running at 240 MHz.");
    }
}

#[test]
fn chat_without_trigger_gets_no_reply() {
    let mut c = playing(None);
    let (events, sends) = drive(&mut c, &game_message("hello there"));
    assert_eq!(events.len(), 1);
    assert!(matches!(&events[0], ApplicationEvent::ChatMessage(t) if t.contains("hello there")));
    assert!(sends.is_empty());
}

fn chunk_packet(x: i32, z: i32, blocks: &[u8]) -> Vec<u8> {
    let p = ChunkDataS2c {
        pos: ChunkPos::new(x, z),
        heightmaps: Cow::Owned(Compound::new()),
        blocks_and_biomes: blocks,
        block_entities: Cow::Borrowed(&[]),
        sky_light_mask: Cow::Borrowed(&[]),
        block_light_mask: Cow::Borrowed(&[]),
        empty_sky_light_mask: Cow::Borrowed(&[]),
        empty_block_light_mask: Cow::Borrowed(&[]),
        sky_light_arrays: Cow::Borrowed(&[]),
        block_light_arrays: Cow::Borrowed(&[]),
    };
    wire(None, &p)
}

#[test]
fn scenario_chunk_data_bytes_pass_through() {
    let mut c = playing(None);
    let blocks: Vec<u8> = (0..100u8).collect();
    let (events, sends) = drive(&mut c, &chunk_packet(3, -2, &blocks));
    assert!(sends.is_empty());
    assert_eq!(
        events,
        vec![ApplicationEvent::ChunkData(ChunkBlockData { pos: ChunkPosition { x: 3, z: -2 }, blocks })]
    );
}

#[test]
fn keep_alive_is_echoed_once() {
    let mut c = playing(None);
    let (events, sends) = drive(&mut c, &wire(None, &KeepAliveS2c { id: 0xdead_beef }));
    assert!(events.is_empty());
    assert_eq!(sends.len(), 1);
    let out = decode_all(None, &sends[0]);
    assert_eq!(out.len(), 1);
    assert_eq!(out[0].0, KeepAliveC2s::ID);
    let frame = valence_protocol::decode::PacketFrame { id: out[0].0, body: out[0].1.as_slice().into() };
    let p: KeepAliveC2s = frame.decode().unwrap();
    assert_eq!(p.id, 0xdead_beef);
}

#[test]
fn keep_alive_is_echoed_under_compression() {
    let mut c = playing(Some(64));
    let (events, sends) = drive(&mut c, &wire(Some(64), &KeepAliveS2c { id: 7 }));
    assert!(events.is_empty());
    assert_eq!(sends.len(), 1);
    let out = decode_all(Some(64), &sends[0]);
    assert_eq!(out[0].0, KeepAliveC2s::ID);
    assert_eq!(out[0].1, 7u64.to_be_bytes().to_vec());
}

fn block_update(state: BlockState) -> Vec<u8> {
    wire(None, &BlockUpdateS2c { position: BlockPos::new(1, 2, 3), block_id: VarInt(state.to_raw() as i32) })
}

#[test]
fn lit_lamp_turns_lamp_on() {
    let mut c = playing(None);
    let lit = BlockState::REDSTONE_LAMP.set(PropName::Lit, PropValue::True);
    let (events, sends) = drive(&mut c, &block_update(lit));
    assert_eq!(events, vec![ApplicationEvent::LampOn]);
    assert!(sends.is_empty());
}

#[test]
fn unlit_or_propertyless_block_turns_lamp_off() {
    let mut c = playing(None);
    let unlit = BlockState::REDSTONE_LAMP.set(PropName::Lit, PropValue::False);
    let (events, _) = drive(&mut c, &block_update(unlit));
    assert_eq!(events, vec![ApplicationEvent::LampOff]);
    let (events, _) = drive(&mut c, &block_update(BlockState::STONE));
    assert_eq!(events, vec![ApplicationEvent::LampOff]);
}

#[test]
fn frames_split_anywhere_decode_the_same() {
    let mut stream = Vec::new();
    stream.extend(wire(None, &KeepAliveS2c { id: 1 }));
    stream.extend(game_message("first"));
    stream.extend(wire(None, &KeepAliveS2c { id: 2 }));
    let mut whole = playing(None);
    let expected = drive(&mut whole, &stream);
    assert_eq!(expected.0.len(), 1);
    assert_eq!(expected.1.len(), 2);
    for cut in 0..=stream.len() {
        for step in [1usize, 3, 7] {
            let mut c = playing(None);
            let mut events = Vec::new();
            let mut sends = Vec::new();
            let (head, tail) = stream.split_at(cut);
            for chunk in head.chunks(step.max(1)).chain(tail.chunks(step)) {
                let (e, s) = drive(&mut c, chunk);
                events.extend(e);
                sends.extend(s);
            }
            assert_eq!(events, expected.0);
            assert_eq!(sends, expected.1);
        }
    }
}

#[test]
fn compressed_frames_round_trip_both_sizes() {
    let mut c = playing(Some(256));
    let small: Vec<u8> = vec![9; 10];
    let large: Vec<u8> = (0..2000u32).map(|i| (i % 251) as u8).collect();
    for blocks in [small, large] {
        let p = ChunkDataS2c {
            pos: ChunkPos::new(0, 0),
            heightmaps: Cow::Owned(Compound::new()),
            blocks_and_biomes: &blocks,
            block_entities: Cow::Borrowed(&[]),
            sky_light_mask: Cow::Borrowed(&[]),
            block_light_mask: Cow::Borrowed(&[]),
            empty_sky_light_mask: Cow::Borrowed(&[]),
            empty_block_light_mask: Cow::Borrowed(&[]),
            sky_light_arrays: Cow::Borrowed(&[]),
            block_light_arrays: Cow::Borrowed(&[]),
        };
        let (events, _) = drive(&mut c, &wire(Some(256), &p));
        assert_eq!(
            events,
            vec![ApplicationEvent::ChunkData(ChunkBlockData {
                pos: ChunkPosition { x: 0, z: 0 },
                blocks: blocks.clone()
            })]
        );
    }
}

#[test]
fn server_disconnect_ends_the_connection() {
    let mut c = playing(None);
    let mut bytes = wire(None, &DisconnectS2c { reason: Cow::Owned(Text::text("bye")) });
    bytes.extend(wire(None, &KeepAliveS2c { id: 1 }));
    let (events, sends) = drive(&mut c, &bytes);
    assert!(sends.is_empty());
    assert_eq!(events.len(), 1);
    match &events[0] {
        ApplicationEvent::Disconnected(r) => {
            assert!(r.starts_with("disconnected by server: "));
            assert!(r.contains("bye"));
        }
        other => panic!("unexpected event {:?}", other),
    }
    assert!(c.is_closed());
    assert!(c.close("later".to_string()).is_empty());
}

#[test]
fn login_disconnect_ends_the_connection() {
    let mut c = Connection::new();
    c.open("127.0.0.1", 25565, "ESP32-S3");
    let bytes = wire(None, &LoginDisconnectS2c { reason: Cow::Owned(Text::text("full")) });
    let (events, _) = drive(&mut c, &bytes);
    assert_eq!(events.len(), 1);
    assert!(matches!(&events[0], ApplicationEvent::Disconnected(r) if r.contains("full")));
}

#[test]
fn malformed_packet_is_a_decode_failure() {
    let mut c = playing(None);
    // A keep-alive frame whose body is too short for its identifier.
    let bytes = vec![3u8, KEEP_ALIVE_ID as u8, 1, 2];
    let (events, sends) = drive(&mut c, &bytes);
    assert!(sends.is_empty());
    assert_eq!(events, vec![ApplicationEvent::Disconnected("decode failure".to_string())]);
    assert!(c.is_closed());
}

#[test]
fn malformed_frame_length_is_a_decode_failure() {
    let mut c = playing(None);
    let (events, _) = drive(&mut c, &[0xff, 0xff, 0xff, 0xff, 0xff, 0xff]);
    assert_eq!(events, vec![ApplicationEvent::Disconnected("decode failure".to_string())]);
}

#[test]
fn changed_compression_threshold_is_a_protocol_error() {
    let mut c = Connection::new();
    c.open("127.0.0.1", 25565, "ESP32-S3");
    let mut bytes = wire(None, &LoginCompressionS2c { threshold: VarInt(256) });
    bytes.extend(wire(Some(256), &LoginCompressionS2c { threshold: VarInt(256) }));
    let (events, _) = drive(&mut c, &bytes);
    assert!(events.is_empty());
    let (events, _) = drive(&mut c, &wire(Some(256), &LoginCompressionS2c { threshold: VarInt(512) }));
    assert_eq!(
        events,
        vec![ApplicationEvent::Disconnected("protocol error: compression threshold changed".to_string())]
    );
}

#[test]
fn unknown_packets_are_ignored() {
    let mut c = playing(None);
    let bytes = vec![2u8, 0x7f, 0];
    let (events, sends) = drive(&mut c, &bytes);
    assert!(events.is_empty() && sends.is_empty());
    assert!(!c.is_closed());
}

#[test]
fn frames_before_login_are_ignored() {
    let mut c = Connection::new();
    let (events, _) = drive(&mut c, &wire(None, &KeepAliveS2c { id: 5 }));
    assert!(events.is_empty());
    let f = Frame { id: KEEP_ALIVE_ID, body: vec![] };
    let step = c.handle_frame(&f);
    assert!(step.events.is_empty() && step.sends.is_empty());
}

#[test]
fn session_reacts_by_kind() {
    let mut s = Session { state: ConnectionState::Play, threshold: None };
    let r = s.handle(Inbound::KeepAlive(9));
    assert_eq!(r.reply, Some(Outbound::KeepAlive(9)));
    assert!(r.events.is_empty() && r.end.is_none());
    let r = s.handle(Inbound::BlockUpdate(None));
    assert_eq!(r.events, vec![ApplicationEvent::LampOff]);
    let r = s.handle(Inbound::BlockUpdate(Some(true)));
    assert_eq!(r.events, vec![ApplicationEvent::LampOn]);
    let r = s.handle(Inbound::Disconnect("x".to_string()));
    assert_eq!(r.end, Some("disconnected by server: x".to_string()));
    let r = s.handle(Inbound::Compression(-1));
    assert!(r.end.is_none());
    assert_eq!(s.threshold, None);
    let r = s.handle(Inbound::Compression(128));
    assert!(r.end.is_none());
    assert_eq!(s.threshold, Some(128));
}

#[test]
fn contains_finds_runs() {
    let h: Vec<char> = "well, How are you?".chars().collect();
    let n: Vec<char> = "How are you?".chars().collect();
    assert!(contains_seq(&h, &n));
    let n2: Vec<char> = "how are you?".chars().collect();
    assert!(!contains_seq(&h, &n2));
    assert!(contains_seq(&h, &Vec::new()));
    assert!(!contains_seq(&Vec::new(), &n));
}

#[test]
fn status_follows_the_events() {
    let mut s = ConnectionStatus::new();
    assert_eq!(s.message, "Connecting...");
    assert!(!s.connected);
    s.apply(&ApplicationEvent::Connected);
    assert_eq!(s.message, "Connected!");
    assert!(s.connected);
    s.apply(&ApplicationEvent::ChatMessage("hi".to_string()));
    assert_eq!(s.message, "hi");
    assert!(s.connected);
    s.apply(&ApplicationEvent::LampOn);
    assert_eq!(s.message, "hi");
    s.apply(&ApplicationEvent::Disconnected("refused".to_string()));
    assert_eq!(s.message, "Connection failed: refused");
    assert!(!s.connected);
}

#[test]
fn player_chat_with_trigger_gets_a_reply() {
    let mut c = playing(None);
    let p = ChatMessageS2c {
        sender: Uuid::nil(),
        index: VarInt(0),
        message_signature: None,
        message: "Hey, How are you?",
        time_stamp: 0,
        salt: 0,
        previous_messages: vec![],
        unsigned_content: None,
        filter_type: MessageFilterType::PassThrough,
        filter_type_bits: None,
        chat_type: VarInt(0),
        network_name: Cow::Owned(Text::text("bob")),
        network_target_name: None,
    };
    let (events, sends) = drive(&mut c, &wire(None, &p));
    assert_eq!(events, vec![ApplicationEvent::ChatMessage("Hey, How are you?".to_string())]);
    assert_eq!(sends.len(), 1);
    assert_eq!(decode_all(None, &sends[0])[0].0, ChatMessageC2s::ID);
}

#[test]
fn partial_frame_waits_for_the_rest() {
    let mut c = playing(None);
    let bytes = wire(None, &KeepAliveS2c { id: 3 });
    c.receive(&bytes[..bytes.len() - 1]);
    assert!(matches!(c.next_frame(), Next::NeedMore));
    c.receive(&bytes[bytes.len() - 1..]);
    match c.next_frame() {
        Next::Frame(f) => {
            assert_eq!(f.id, KEEP_ALIVE_ID);
            assert_eq!(f.body, 3u64.to_be_bytes().to_vec());
        }
        _ => panic!("expected a frame"),
    }
    assert!(matches!(c.next_frame(), Next::NeedMore));
}

#[test]
fn nothing_is_decoded_after_a_failure() {
    let mut c = playing(Some(16));
    // A compressed frame whose zlib data is garbage.
    let bad = vec![4u8, 40, 0xde, 0xad, 0xbe];
    c.receive(&bad);
    match c.next_frame() {
        Next::Failed(events) => assert_eq!(
            events,
            vec![ApplicationEvent::Disconnected("decode failure".to_string())]
        ),
        _ => panic!("expected a failure"),
    }
    c.receive(&wire(Some(16), &KeepAliveS2c { id: 1 }));
    assert!(matches!(c.next_frame(), Next::NeedMore));
    assert!(c.end_of_stream().is_empty());
}
