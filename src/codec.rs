use vstd::prelude::*;
use valence_protocol::block::{BlockState, PropName, PropValue};
use valence_protocol::decode::PacketFrame;
use valence_protocol::packets::handshaking::handshake_c2s::HandshakeNextState;
use valence_protocol::packets::handshaking::HandshakeC2s;
use valence_protocol::packets::login::{
    LoginCompressionS2c, LoginDisconnectS2c, LoginHelloC2s, LoginSuccessS2c,
};
use valence_protocol::packets::play::{
    BlockUpdateS2c, ChatMessageC2s, ChatMessageS2c, ChunkDataS2c, DisconnectS2c, GameMessageS2c,
    KeepAliveC2s, KeepAliveS2c,
};
use valence_protocol::{PacketDecoder, PacketEncoder, Packet, VarInt};
use crate::events::{ChunkBlockData, ChunkPosition};
use crate::session::reason_view;

verus! {

/// A complete frame taken off the byte stream: the packet identifier and the
/// bytes that follow it.
#[derive(Clone, Debug, PartialEq, Eq)]
pub struct Frame {
    pub id: i32,
    pub body: Vec<u8>,
}

#[verifier::external_type_specification]
#[verifier::external_body]
pub struct ExPacketDecoder(PacketDecoder);

/// The bytes that a decoder holds and has not yet handed out as frames.
pub uninterp spec fn pending_bytes(d: PacketDecoder) -> Seq<u8>;

/// The compression threshold that a decoder applies.
pub uninterp spec fn decoder_threshold(d: PacketDecoder) -> Option<u32>;

/// Whether a decoder has been left with scratch bytes by a failed
/// decompression, after which it must not be asked for another frame.
pub uninterp spec fn decoder_failed(d: PacketDecoder) -> bool;

/// What a decoder makes of the front of its buffer `pending` under
/// `threshold`: `None` when the first frame is malformed, `Some(None)` when
/// no complete frame is there yet, and `Some(Some((id, body, n)))` for a
/// frame with identifier `id` and bytes `body` that takes up the first `n`
/// bytes.
pub uninterp spec fn split_frame(pending: Seq<u8>, threshold: Option<u32>) -> Option<Option<(i32, Seq<u8>, nat)>>;

/// Relies on PacketDecoder::new: it starts with empty buffers and no
/// compression (its fields' defaults).
#[verifier::external_body]
pub(crate) fn new_decoder() -> (d: PacketDecoder)
    ensures
        pending_bytes(d) == Seq::<u8>::empty(),
        decoder_threshold(d) == None::<u32>,
        !decoder_failed(d),
{
    PacketDecoder::new()
}

/// Relies on PacketDecoder::queue_slice: without encryption it appends the
/// bytes to the buffer. Once the front of the buffer holds a complete frame
/// or a malformed one, try_next_packet reads only that frame's bytes, so
/// appending leaves what it finds there unchanged.
#[verifier::external_body]
pub(crate) fn queue_bytes(d: &mut PacketDecoder, bytes: &[u8])
    ensures
        pending_bytes(*final(d)) == pending_bytes(*old(d)) + bytes@,
        decoder_threshold(*final(d)) == decoder_threshold(*old(d)),
        decoder_failed(*final(d)) == decoder_failed(*old(d)),
        split_frame(pending_bytes(*old(d)), decoder_threshold(*old(d))) != Some(None::<(i32, Seq<u8>, nat)>)
            ==> split_frame(pending_bytes(*final(d)), decoder_threshold(*final(d)))
            == split_frame(pending_bytes(*old(d)), decoder_threshold(*old(d))),
{
    d.queue_slice(bytes)
}

/// Relies on PacketDecoder::set_compression: it sets the threshold and leaves
/// the buffers alone.
#[verifier::external_body]
pub(crate) fn set_decoder_threshold(d: &mut PacketDecoder, threshold: Option<u32>)
    ensures
        pending_bytes(*final(d)) == pending_bytes(*old(d)),
        decoder_threshold(*final(d)) == threshold,
        decoder_failed(*final(d)) == decoder_failed(*old(d)),
{
    d.set_compression(threshold)
}

/// Relies on PacketDecoder::try_next_packet: it never changes the threshold;
/// it returns `Ok(None)` before touching the buffer when no complete frame is
/// there; a frame it returns is taken off the front of the buffer; and only
/// a failed decompression leaves scratch bytes behind.
#[verifier::external_body]
pub(crate) fn try_next_frame(d: &mut PacketDecoder) -> (r: Result<Option<Frame>, ()>)
    requires
        !decoder_failed(*old(d)),
    ensures
        decoder_threshold(*final(d)) == decoder_threshold(*old(d)),
        r is Ok ==> !decoder_failed(*final(d)),
        split_frame(pending_bytes(*old(d)), decoder_threshold(*old(d))) is None ==> r is Err,
        split_frame(pending_bytes(*old(d)), decoder_threshold(*old(d))) == Some(None::<(i32, Seq<u8>, nat)>)
            ==> r is Ok && r->Ok_0 is None,
        split_frame(pending_bytes(*old(d)), decoder_threshold(*old(d))) == Some(None::<(i32, Seq<u8>, nat)>)
            ==> pending_bytes(*final(d)) == pending_bytes(*old(d)),
        split_frame(pending_bytes(*old(d)), decoder_threshold(*old(d))) matches Some(Some(f))
            ==> r is Ok && r->Ok_0 is Some && r->Ok_0->Some_0.id == f.0 && r->Ok_0->Some_0.body@ == f.1,
        split_frame(pending_bytes(*old(d)), decoder_threshold(*old(d))) matches Some(Some(f))
            ==> 0 < f.2 <= pending_bytes(*old(d)).len() && pending_bytes(*final(d)) == pending_bytes(*old(d)).skip(f.2 as int),
        pending_bytes(*old(d)).len() == 0 ==> split_frame(pending_bytes(*old(d)), decoder_threshold(*old(d))) == Some(None::<(i32, Seq<u8>, nat)>),
{
    match d.try_next_packet() {
        Ok(Some(f)) => Ok(Some(Frame { id: f.id, body: f.body.to_vec() })),
        Ok(None) => Ok(None),
        Err(_) => Err(()),
    }
}

/// The threshold that a well-formed compression notice carries.
pub uninterp spec fn compression_of(body: Seq<u8>) -> Option<i32>;

/// Relies on PacketFrame::decode for LoginCompressionS2c.
#[verifier::external_body]
pub(crate) fn decode_compression(body: &Vec<u8>) -> (r: Option<i32>)
    ensures
        r == compression_of(body@),
{
    let f = PacketFrame { id: LoginCompressionS2c::ID, body: body.as_slice().into() };
    f.decode::<LoginCompressionS2c>().ok().map(|p| p.threshold.0)
}

/// Whether a login-success body is well formed.
pub uninterp spec fn login_success_ok(body: Seq<u8>) -> bool;

/// Relies on PacketFrame::decode for LoginSuccessS2c.
#[verifier::external_body]
pub(crate) fn decode_login_success(body: &Vec<u8>) -> (r: bool)
    ensures
        r == login_success_ok(body@),
{
    let f = PacketFrame { id: LoginSuccessS2c::ID, body: body.as_slice().into() };
    f.decode::<LoginSuccessS2c>().is_ok()
}

/// The reason text of a well-formed disconnect notice of the login phase.
pub uninterp spec fn login_disconnect_of(body: Seq<u8>) -> Option<Seq<char>>;

/// Relies on PacketFrame::decode for LoginDisconnectS2c, and on the text's
/// `to_string`.
#[verifier::external_body]
pub(crate) fn decode_login_disconnect(body: &Vec<u8>) -> (r: Option<String>)
    ensures
        reason_view(r) == login_disconnect_of(body@),
{
    let f = PacketFrame { id: LoginDisconnectS2c::ID, body: body.as_slice().into() };
    f.decode::<LoginDisconnectS2c>().ok().map(|p| p.reason.to_string())
}

/// The reason text of a well-formed disconnect notice of the play phase.
pub uninterp spec fn disconnect_of(body: Seq<u8>) -> Option<Seq<char>>;

/// Relies on PacketFrame::decode for DisconnectS2c, and on the text's
/// `to_string`.
#[verifier::external_body]
pub(crate) fn decode_disconnect(body: &Vec<u8>) -> (r: Option<String>)
    ensures
        reason_view(r) == disconnect_of(body@),
{
    let f = PacketFrame { id: DisconnectS2c::ID, body: body.as_slice().into() };
    f.decode::<DisconnectS2c>().ok().map(|p| p.reason.to_string())
}

/// The unsigned number that bytes spell, most significant first.
pub open spec fn big_endian(b: Seq<u8>) -> nat
    decreases b.len(),
{
    if b.len() == 0 {
        0
    } else {
        big_endian(b.drop_last()) * 256 + b.last() as nat
    }
}

/// The identifier of a keep-alive ping: its body is exactly one unsigned
/// 64-bit integer, most significant byte first.
pub open spec fn keep_alive_of(body: Seq<u8>) -> Option<u64> {
    if body.len() == 8 {
        Some(big_endian(body) as u64)
    } else {
        None
    }
}

/// Relies on PacketFrame::decode for KeepAliveS2c: its one field is a `u64`,
/// read big-endian, and no bytes may be left over.
#[verifier::external_body]
pub(crate) fn decode_keep_alive(body: &Vec<u8>) -> (r: Option<u64>)
    ensures
        r == keep_alive_of(body@),
{
    let f = PacketFrame { id: KeepAliveS2c::ID, body: body.as_slice().into() };
    f.decode::<KeepAliveS2c>().ok().map(|p| p.id)
}

/// The text of a well-formed system message.
pub uninterp spec fn game_message_of(body: Seq<u8>) -> Option<Seq<char>>;

/// Relies on PacketFrame::decode for GameMessageS2c, and on the text's
/// `to_string`.
#[verifier::external_body]
pub(crate) fn decode_game_message(body: &Vec<u8>) -> (r: Option<String>)
    ensures
        reason_view(r) == game_message_of(body@),
{
    let f = PacketFrame { id: GameMessageS2c::ID, body: body.as_slice().into() };
    f.decode::<GameMessageS2c>().ok().map(|p| p.chat.to_string())
}

/// The message text of a well-formed player chat packet.
pub uninterp spec fn chat_message_of(body: Seq<u8>) -> Option<Seq<char>>;

/// Relies on PacketFrame::decode for ChatMessageS2c.
#[verifier::external_body]
pub(crate) fn decode_chat_message(body: &Vec<u8>) -> (r: Option<String>)
    ensures
        reason_view(r) == chat_message_of(body@),
{
    let f = PacketFrame { id: ChatMessageS2c::ID, body: body.as_slice().into() };
    f.decode::<ChatMessageS2c>().ok().map(|p| p.message.to_string())
}

/// The raw block state of a well-formed block update.
pub uninterp spec fn block_update_of(body: Seq<u8>) -> Option<i32>;

/// Relies on PacketFrame::decode for BlockUpdateS2c.
#[verifier::external_body]
pub(crate) fn decode_block_update(body: &Vec<u8>) -> (r: Option<i32>)
    ensures
        r == block_update_of(body@),
{
    let f = PacketFrame { id: BlockUpdateS2c::ID, body: body.as_slice().into() };
    f.decode::<BlockUpdateS2c>().ok().map(|p| p.block_id.0)
}

/// The value of the `lit` property of a raw block state, where the state
/// exists and has that property with a true or false value.
pub uninterp spec fn lit_of(state: i32) -> Option<bool>;

/// Relies on BlockState::from_raw, BlockState::get with PropName::Lit, and
/// PropValue::to_bool.
#[verifier::external_body]
pub(crate) fn lit_property(state: i32) -> (r: Option<bool>)
    ensures
        r == lit_of(state),
{
    u16::try_from(state)
        .ok()
        .and_then(BlockState::from_raw)
        .and_then(|b| b.get(PropName::Lit))
        .and_then(PropValue::to_bool)
}

/// The chunk position and block/biome bytes of a well-formed chunk-data packet.
pub uninterp spec fn chunk_of(body: Seq<u8>) -> Option<(i32, i32, Seq<u8>)>;

/// The view of an optional chunk payload.
pub open spec fn chunk_view(c: Option<ChunkBlockData>) -> Option<(i32, i32, Seq<u8>)> {
    match c {
        Some(c) => Some((c.pos.x, c.pos.z, c.blocks@)),
        None => None,
    }
}

/// Relies on PacketFrame::decode for ChunkDataS2c.
#[verifier::external_body]
pub(crate) fn decode_chunk(body: &Vec<u8>) -> (r: Option<ChunkBlockData>)
    ensures
        chunk_view(r) == chunk_of(body@),
{
    let f = PacketFrame { id: ChunkDataS2c::ID, body: body.as_slice().into() };
    f.decode::<ChunkDataS2c>().ok().map(|p| ChunkBlockData {
        pos: ChunkPosition { x: p.pos.x, z: p.pos.z },
        blocks: p.blocks_and_biomes.to_vec(),
    })
}

/// The view of optional wire bytes.
pub open spec fn bytes_view(v: Option<Vec<u8>>) -> Option<Seq<u8>> {
    match v {
        Some(b) => Some(b@),
        None => None,
    }
}

/// The wire bytes of a handshake that asks for the login phase.
pub uninterp spec fn handshake_frame(version: i32, address: Seq<char>, port: u16) -> Option<Seq<u8>>;

/// Relies on PacketEncoder::append_packet and PacketEncoder::take for
/// HandshakeC2s, on a new encoder (no compression).
#[verifier::external_body]
pub(crate) fn encode_handshake(version: i32, address: &str, port: u16) -> (r: Option<Vec<u8>>)
    ensures
        bytes_view(r) == handshake_frame(version, address@, port),
{
    let mut enc = PacketEncoder::new();
    let p = HandshakeC2s {
        protocol_version: VarInt(version),
        server_address: address,
        server_port: port,
        next_state: HandshakeNextState::Login,
    };
    match enc.append_packet(&p) {
        Ok(()) => Some(enc.take().to_vec()),
        Err(_) => None,
    }
}

/// The wire bytes of a login start with the given name and no profile id.
pub uninterp spec fn login_hello_frame(name: Seq<char>) -> Option<Seq<u8>>;

/// Relies on PacketEncoder::append_packet and PacketEncoder::take for
/// LoginHelloC2s, on a new encoder (no compression).
#[verifier::external_body]
pub(crate) fn encode_login_hello(name: &str) -> (r: Option<Vec<u8>>)
    ensures
        bytes_view(r) == login_hello_frame(name@),
{
    let mut enc = PacketEncoder::new();
    let p = LoginHelloC2s { username: name, profile_id: None };
    match enc.append_packet(&p) {
        Ok(()) => Some(enc.take().to_vec()),
        Err(_) => None,
    }
}

/// The wire bytes of a keep-alive pong under a compression threshold.
pub uninterp spec fn keep_alive_frame(threshold: Option<u32>, id: u64) -> Option<Seq<u8>>;

/// Relies on PacketEncoder::set_compression, append_packet and take for
/// KeepAliveC2s.
#[verifier::external_body]
pub(crate) fn encode_keep_alive(threshold: Option<u32>, id: u64) -> (r: Option<Vec<u8>>)
    ensures
        bytes_view(r) == keep_alive_frame(threshold, id),
{
    let mut enc = PacketEncoder::new();
    enc.set_compression(threshold);
    match enc.append_packet(&KeepAliveC2s { id }) {
        Ok(()) => Some(enc.take().to_vec()),
        Err(_) => None,
    }
}

/// The wire bytes of an unsigned chat message under a compression threshold.
pub uninterp spec fn chat_frame(threshold: Option<u32>, text: Seq<char>) -> Option<Seq<u8>>;

/// Relies on PacketEncoder::set_compression, append_packet and take for
/// ChatMessageC2s, unsigned, with zero timestamp, salt and acknowledgements.
#[verifier::external_body]
pub(crate) fn encode_chat(threshold: Option<u32>, text: &str) -> (r: Option<Vec<u8>>)
    ensures
        bytes_view(r) == chat_frame(threshold, text@),
{
    let mut enc = PacketEncoder::new();
    enc.set_compression(threshold);
    let p = ChatMessageC2s {
        message: text,
        timestamp: 0,
        salt: 0,
        signature: None,
        message_count: VarInt(0),
        acknowledgement: [0; 3],
    };
    match enc.append_packet(&p) {
        Ok(()) => Some(enc.take().to_vec()),
        Err(_) => None,
    }
}

} // verus!
