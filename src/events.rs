use vstd::prelude::*;

verus! {

/// A chunk column position, in chunk coordinates.
#[derive(Clone, Copy, Debug, PartialEq, Eq, Structural)]
pub struct ChunkPosition {
    pub x: i32,
    pub z: i32,
}

/// The raw block and biome bytes of one chunk column.
#[derive(Clone, Debug, PartialEq, Eq)]
pub struct ChunkBlockData {
    pub pos: ChunkPosition,
    pub blocks: Vec<u8>,
}

/// A semantic notification for the consumer of the connection.
#[derive(Clone, Debug, PartialEq, Eq)]
pub enum ApplicationEvent {
    Connected,
    LampOn,
    LampOff,
    ChatMessage(String),
    Disconnected(String),
    ChunkData(ChunkBlockData),
}

/// The mathematical value of an [`ApplicationEvent`].
pub enum EventView {
    Connected,
    LampOn,
    LampOff,
    ChatMessage(Seq<char>),
    Disconnected(Seq<char>),
    ChunkData(i32, i32, Seq<u8>),
}

impl View for ApplicationEvent {
    type V = EventView;

    open spec fn view(&self) -> EventView {
        match self {
            ApplicationEvent::Connected => EventView::Connected,
            ApplicationEvent::LampOn => EventView::LampOn,
            ApplicationEvent::LampOff => EventView::LampOff,
            ApplicationEvent::ChatMessage(t) => EventView::ChatMessage(t@),
            ApplicationEvent::Disconnected(r) => EventView::Disconnected(r@),
            ApplicationEvent::ChunkData(c) => EventView::ChunkData(c.pos.x, c.pos.z, c.blocks@),
        }
    }
}

/// The views of a sequence of events, in order.
pub open spec fn events_view(evs: Seq<ApplicationEvent>) -> Seq<EventView> {
    evs.map_values(|e: ApplicationEvent| e@)
}

} // verus!
