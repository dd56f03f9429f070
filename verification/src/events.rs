//! The per-tick event queue: collision and trigger records emitted by the
//! collision resolver and drained by the brick behavior handlers in one
//! fixed order within the same tick, plus the death notifications handed
//! to the presentation layer.  No event outlives its tick.

use vstd::prelude::*;
use crate::geom::Side;

verus! {

/// A brick-side trigger record: `myself` is the brick, `other` the player
/// that entered contact, `collision` the classified side.
#[derive(Clone, Copy, Debug, PartialEq, Eq, Structural)]
pub struct TriggerEvent {
    pub myself: u64,
    pub other: u64,
    pub collision: Side,
}

#[derive(Clone, Copy, Debug, PartialEq, Eq, Structural)]
pub struct NormalBrickTriggerEnterEvent(pub TriggerEvent);

#[derive(Clone, Copy, Debug, PartialEq, Eq, Structural)]
pub struct FakeBrickTriggerEnterEvent(pub TriggerEvent);

#[derive(Clone, Copy, Debug, PartialEq, Eq, Structural)]
pub struct SpringBrickTriggerEnterEvent(pub TriggerEvent);

#[derive(Clone, Copy, Debug, PartialEq, Eq, Structural)]
pub struct ConveyorBrickTriggerEnterEvent(pub TriggerEvent);

#[derive(Clone, Copy, Debug, PartialEq, Eq, Structural)]
pub struct ConveyorBrickTriggerLeaveEvent(pub TriggerEvent);

/// A raw collision record, emitted for every overlap found in a scan,
/// whether or not it is a first contact.
#[derive(Clone, Copy, Debug, PartialEq, Eq, Structural)]
pub struct CollisionEvent {
    pub a: u64,
    pub b: u64,
    pub collision: Side,
    pub a_is_player: bool,
    pub b_is_player: bool,
}

/// Emitted exactly once, on the tick a player's death state is set.
#[derive(Clone, Copy, Debug, PartialEq, Eq, Structural)]
pub struct PlayerEnterDeadEvent {
    pub handle: u32,
}

#[derive(Clone, Copy, Debug, PartialEq, Eq, Structural)]
pub struct PlayerLeaveDeadEvent {
    pub handle: u32,
}

/// All events produced by one tick, in emission order per queue.
#[derive(Clone, Debug)]
pub struct TickEvents {
    pub collisions: Vec<CollisionEvent>,
    pub normal_triggers: Vec<NormalBrickTriggerEnterEvent>,
    pub fake_triggers: Vec<FakeBrickTriggerEnterEvent>,
    pub spring_triggers: Vec<SpringBrickTriggerEnterEvent>,
    pub conveyor_triggers: Vec<ConveyorBrickTriggerEnterEvent>,
    pub player_enter_dead: Vec<PlayerEnterDeadEvent>,
}

/// The mathematical image of a `TickEvents`: one sequence per queue.
#[verifier::ext_equal]
pub ghost struct TickEventsView {
    pub collisions: Seq<CollisionEvent>,
    pub normal_triggers: Seq<NormalBrickTriggerEnterEvent>,
    pub fake_triggers: Seq<FakeBrickTriggerEnterEvent>,
    pub spring_triggers: Seq<SpringBrickTriggerEnterEvent>,
    pub conveyor_triggers: Seq<ConveyorBrickTriggerEnterEvent>,
    pub player_enter_dead: Seq<PlayerEnterDeadEvent>,
}

impl View for TickEvents {
    type V = TickEventsView;

    open spec fn view(&self) -> TickEventsView {
        TickEventsView {
            collisions: self.collisions@,
            normal_triggers: self.normal_triggers@,
            fake_triggers: self.fake_triggers@,
            spring_triggers: self.spring_triggers@,
            conveyor_triggers: self.conveyor_triggers@,
            player_enter_dead: self.player_enter_dead@,
        }
    }
}

/// The view of a queue with no events.
pub open spec fn empty_events() -> TickEventsView {
    TickEventsView {
        collisions: Seq::empty(),
        normal_triggers: Seq::empty(),
        fake_triggers: Seq::empty(),
        spring_triggers: Seq::empty(),
        conveyor_triggers: Seq::empty(),
        player_enter_dead: Seq::empty(),
    }
}

/// Two event queues appended field by field, in order.
pub open spec fn events_concat(a: TickEventsView, b: TickEventsView) -> TickEventsView {
    TickEventsView {
        collisions: a.collisions + b.collisions,
        normal_triggers: a.normal_triggers + b.normal_triggers,
        fake_triggers: a.fake_triggers + b.fake_triggers,
        spring_triggers: a.spring_triggers + b.spring_triggers,
        conveyor_triggers: a.conveyor_triggers + b.conveyor_triggers,
        player_enter_dead: a.player_enter_dead + b.player_enter_dead,
    }
}

impl TickEvents {
    pub open spec fn is_empty_spec(self) -> bool {
        &&& self.collisions@ == Seq::<CollisionEvent>::empty()
        &&& self.normal_triggers@ == Seq::<NormalBrickTriggerEnterEvent>::empty()
        &&& self.fake_triggers@ == Seq::<FakeBrickTriggerEnterEvent>::empty()
        &&& self.spring_triggers@ == Seq::<SpringBrickTriggerEnterEvent>::empty()
        &&& self.conveyor_triggers@ == Seq::<ConveyorBrickTriggerEnterEvent>::empty()
        &&& self.player_enter_dead@ == Seq::<PlayerEnterDeadEvent>::empty()
    }

    /// An empty event queue, as each tick starts with.
    pub fn new() -> (r: TickEvents)
        ensures
            r.is_empty_spec(),
    {
        TickEvents {
            collisions: Vec::new(),
            normal_triggers: Vec::new(),
            fake_triggers: Vec::new(),
            spring_triggers: Vec::new(),
            conveyor_triggers: Vec::new(),
            player_enter_dead: Vec::new(),
        }
    }
}

} // verus!
