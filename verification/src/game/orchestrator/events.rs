//! Events the orchestrator emits for the window to animate.

use vstd::prelude::*;

use crate::resource::{BasicKind, ComplexKind};

verus! {

/// Something that happened in the galaxy.
#[derive(Clone, Copy, Debug, PartialEq, Eq, Structural)]
#[allow(inconsistent_fields)]
pub enum GuiEvent {
    SunrayReceived { planet: u32 },
    AsteroidDeflected { planet: u32 },
    PlanetDestroyed { planet: u32 },
    ExplorerMoved { explorer: u32, to: u32 },
    BasicGenerated { explorer: u32, resource: BasicKind },
    ComplexGenerated { explorer: u32, resource: ComplexKind },
}

/// The events not yet handed to the window, oldest first.
pub struct EventBuffer {
    events: Vec<GuiEvent>,
}

impl EventBuffer {
    /// The buffered events, oldest first.
    pub closed spec fn view(self) -> Seq<GuiEvent> {
        self.events@
    }

    /// No event buffered.
    pub fn new() -> (b: Self)
        ensures
            b@ == Seq::<GuiEvent>::empty(),
    {
        EventBuffer { events: Vec::new() }
    }

    /// Buffers `event` after the others.
    pub fn push(&mut self, event: GuiEvent)
        ensures
            final(self)@ == old(self)@.push(event),
    {
        self.events.push(event);
    }

    /// Removes and returns all buffered events, oldest first.
    pub fn drain(&mut self) -> (r: Vec<GuiEvent>)
        ensures
            r@ == old(self)@,
            final(self)@ == Seq::<GuiEvent>::empty(),
    {
        let mut out: Vec<GuiEvent> = Vec::new();
        std::mem::swap(&mut out, &mut self.events);
        out
    }
}

} // verus!
