//! Announcing the device on the network, and taking leave of it.
use crate::advertisement::Advertisement;
use vstd::prelude::*;

verus! {

/// Whether a notification says that something is there or that it goes.
#[derive(Debug, Clone, Copy, PartialEq, Eq, Structural)]
pub enum NotificationSubType {
    Alive,
    ByeBye,
}

impl NotificationSubType {
    /// How a notification writes it.
    pub open spec fn text(self) -> Seq<char> {
        match self {
            NotificationSubType::Alive => "ssdp:alive"@,
            NotificationSubType::ByeBye => "ssdp:byebye"@,
        }
    }

    /// How a notification writes it.
    pub fn as_str(&self) -> (text: &'static str)
        ensures
            text@ == self.text(),
    {
        match self {
            NotificationSubType::Alive => "ssdp:alive",
            NotificationSubType::ByeBye => "ssdp:byebye",
        }
    }
}

/// A notification of the server at `hostname` and `port`.
#[derive(Debug)]
pub struct SsdpNotify {
    pub hostname: String,
    pub port: u16,
    pub advertisement: Advertisement,
    pub notification_sub_type: NotificationSubType,
}

/// Where a message is sent: an IPv4 address, by its four numbers, and a port.
#[derive(Debug, Clone, Copy, PartialEq, Eq)]
pub struct Destination {
    pub address: (u8, u8, u8, u8),
    pub port: u16,
}

/// The multicast group that takes part in SSDP.
pub open spec fn multicast_group() -> Destination {
    Destination { address: (239, 255, 255, 250), port: 1900 }
}

/// The multicast group that takes part in SSDP.
pub fn ssdp_group() -> (out: Destination)
    ensures
        out == multicast_group(),
{
    Destination { address: (239, 255, 255, 250), port: 1900 }
}

/// How many seconds pass between two rounds of announcements.
pub const ANNOUNCEMENT_INTERVAL: u64 = 1800;

/// How far announcing has come.
#[derive(Debug, Clone, Copy, PartialEq, Eq, Structural)]
pub enum Phase {
    /// The advertisement at position `next` is to be announced.
    Announcing { next: usize },
    /// All are announced, until the next round.
    Waiting,
    /// The advertisement at position `next` is to be taken leave of.
    Leaving { next: usize },
    /// All is said.
    Finished,
}

/// What happened: the last action is done, or the server shuts down.
#[derive(Debug, Clone, Copy, PartialEq, Eq, Structural)]
pub enum Event {
    Done,
    Shutdown,
}

/// What is to be done.
#[derive(Debug)]
pub enum Action {
    Send { to: Destination, notify: SsdpNotify },
    Sleep { seconds: u64 },
    Stop,
}

/// An [`Action`] by what it sends, and where.
pub enum ActionModel {
    Send {
        to: Destination,
        advertisement: Advertisement,
        notification_sub_type: NotificationSubType,
    },
    Sleep { seconds: u64 },
    Stop,
}

impl Phase {
    /// The advertisement at `next` exists.
    pub open spec fn in_range(self) -> bool {
        match self {
            Phase::Announcing { next } => next < 5,
            Phase::Leaving { next } => next < 5,
            Phase::Waiting | Phase::Finished => true,
        }
    }

    /// What the device `id` is to do.
    pub open spec fn action(self, id: u128) -> ActionModel {
        match self {
            Phase::Announcing { next } => ActionModel::Send {
                to: multicast_group(),
                advertisement: crate::advertisement::advertised(id)[next as int],
                notification_sub_type: NotificationSubType::Alive,
            },
            Phase::Waiting => ActionModel::Sleep { seconds: ANNOUNCEMENT_INTERVAL },
            Phase::Leaving { next } => ActionModel::Send {
                to: multicast_group(),
                advertisement: crate::advertisement::advertised(id)[next as int],
                notification_sub_type: NotificationSubType::ByeBye,
            },
            Phase::Finished => ActionModel::Stop,
        }
    }

    /// Where announcing stands after `event`. Announcements go on in rounds until the server shuts down;
    /// taking leave is not interrupted.
    pub open spec fn after(self, event: Event) -> Phase {
        match (self, event) {
            (Phase::Announcing { next }, Event::Done) => if next < 4 {
                Phase::Announcing { next: (next + 1) as usize }
            } else {
                Phase::Waiting
            },
            (Phase::Waiting, Event::Done) => Phase::Announcing { next: 0 },
            (Phase::Announcing { .. }, Event::Shutdown) => Phase::Leaving { next: 0 },
            (Phase::Waiting, Event::Shutdown) => Phase::Leaving { next: 0 },
            (Phase::Leaving { next }, Event::Done) => if next < 4 {
                Phase::Leaving { next: (next + 1) as usize }
            } else {
                Phase::Finished
            },
            (Phase::Leaving { .. }, Event::Shutdown) => self,
            (Phase::Finished, _) => Phase::Finished,
        }
    }
}

/// The course of announcing the device and taking leave of it.
pub struct Schedule {
    phase: Phase,
}

impl View for Schedule {
    type V = Phase;

    closed spec fn view(&self) -> Phase {
        self.phase
    }
}

/// `action` is what `model` says, on behalf of the server at `hostname` and `port`.
pub open spec fn carries_out(action: Action, model: ActionModel, hostname: Seq<char>, port: u16) -> bool {
    match action {
        Action::Send { to, notify } => {
            &&& model == ActionModel::Send {
                to,
                advertisement: notify.advertisement,
                notification_sub_type: notify.notification_sub_type,
            }
            &&& notify.hostname@ == hostname
            &&& notify.port == port
        },
        Action::Sleep { seconds } => model == ActionModel::Sleep { seconds },
        Action::Stop => model == ActionModel::Stop,
    }
}

impl Schedule {
    #[verifier::type_invariant]
    spec fn phase_in_range(self) -> bool {
        self.phase.in_range()
    }

    /// The start: the first advertisement is to be announced.
    pub fn start() -> (out: Schedule)
        ensures
            out@ == (Phase::Announcing { next: 0 }),
    {
        Schedule { phase: Phase::Announcing { next: 0 } }
    }

    /// What the device `id`, served at `hostname` and `port`, is to do.
    pub fn action(&self, id: u128, hostname: &str, port: u16) -> (out: Action)
        ensures
            carries_out(out, self@.action(id), hostname@, port),
    {
        proof {
            use_type_invariant(self);
        }
        match self.phase {
            Phase::Announcing { next } => Action::Send {
                to: ssdp_group(),
                notify: SsdpNotify {
                    hostname: hostname.to_owned(),
                    port,
                    advertisement: Advertisement::all(id)[next],
                    notification_sub_type: NotificationSubType::Alive,
                },
            },
            Phase::Waiting => Action::Sleep { seconds: ANNOUNCEMENT_INTERVAL },
            Phase::Leaving { next } => Action::Send {
                to: ssdp_group(),
                notify: SsdpNotify {
                    hostname: hostname.to_owned(),
                    port,
                    advertisement: Advertisement::all(id)[next],
                    notification_sub_type: NotificationSubType::ByeBye,
                },
            },
            Phase::Finished => Action::Stop,
        }
    }

    /// The course after `event`.
    pub fn step(self, event: Event) -> (out: Schedule)
        ensures
            out@ == self@.after(event),
    {
        proof {
            use_type_invariant(&self);
        }
        let phase: Phase = match (self.phase, event) {
            (Phase::Announcing { next }, Event::Done) => if next < 4 {
                Phase::Announcing { next: next + 1 }
            } else {
                Phase::Waiting
            },
            (Phase::Waiting, Event::Done) => Phase::Announcing { next: 0 },
            (Phase::Announcing { .. }, Event::Shutdown) => Phase::Leaving { next: 0 },
            (Phase::Waiting, Event::Shutdown) => Phase::Leaving { next: 0 },
            (Phase::Leaving { next }, Event::Done) => if next < 4 {
                Phase::Leaving { next: next + 1 }
            } else {
                Phase::Finished
            },
            (Phase::Leaving { next }, Event::Shutdown) => Phase::Leaving { next },
            (Phase::Finished, _) => Phase::Finished,
        };
        Schedule { phase }
    }
}

/// Where announcing stands when `count` actions more are done.
pub open spec fn after_done(phase: Phase, count: nat) -> Phase
    decreases count,
{
    if count == 0 {
        phase
    } else {
        after_done(phase, (count - 1) as nat).after(Event::Done)
    }
}

/// Where announcing stands after any number of actions: in a round of announcements and a wait, over and
/// over.
proof fn lemma_rounds(count: nat)
    ensures
        after_done(Phase::Announcing { next: 0 }, count) == if count % 6 < 5 {
            Phase::Announcing { next: (count % 6) as usize }
        } else {
            Phase::Waiting
        },
    decreases count,
{
    if count > 0 {
        lemma_rounds((count - 1) as nat);
    }
}

/// Until the server shuts down, everything that the device advertises is announced to the multicast group,
/// in turn, then half an hour passes, and so on without end.
pub proof fn rounds_announce_everything(id: u128, count: nat)
    ensures
        ({
            let all = crate::advertisement::advertised(id);
            let place = (count % (all.len() + 1)) as int;
            after_done(Phase::Announcing { next: 0 }, count).action(id) == if place < all.len() {
                ActionModel::Send {
                    to: Destination { address: (239, 255, 255, 250), port: 1900 },
                    advertisement: all[place],
                    notification_sub_type: NotificationSubType::Alive,
                }
            } else {
                ActionModel::Sleep { seconds: 1800 }
            }
        }),
{
    lemma_rounds(count);
}

/// Where taking leave stands after any number of actions.
proof fn lemma_leaving(count: nat)
    ensures
        after_done(Phase::Leaving { next: 0 }, count) == if count < 5 {
            Phase::Leaving { next: count as usize }
        } else {
            Phase::Finished
        },
    decreases count,
{
    if count > 0 {
        lemma_leaving((count - 1) as nat);
    }
}

/// When the server shuts down, wherever announcing stands, it takes leave of everything that it
/// advertises, in turn, before the multicast group, and stops for good.
pub proof fn shutdown_takes_leave_of_everything(phase: Phase, id: u128, count: nat)
    requires
        phase is Announcing || phase is Waiting,
    ensures
        ({
            let all = crate::advertisement::advertised(id);
            after_done(phase.after(Event::Shutdown), count).action(id) == if count < all.len() {
                ActionModel::Send {
                    to: Destination { address: (239, 255, 255, 250), port: 1900 },
                    advertisement: all[count as int],
                    notification_sub_type: NotificationSubType::ByeBye,
                }
            } else {
                ActionModel::Stop
            }
        }),
{
    lemma_leaving(count);
}

/// What is sent names the server as it is called, and goes where the plan says; a plan to send is carried
/// out by sending, one to sleep by sleeping as long, and one to stop by stopping.
pub proof fn plans_are_carried_out(action: Action, model: ActionModel, hostname: Seq<char>, port: u16)
    requires
        carries_out(action, model, hostname, port),
    ensures
        match model {
            ActionModel::Send { to, advertisement, notification_sub_type } => {
                &&& action matches Action::Send { to: place, notify }
                &&& place == to
                &&& notify.hostname@ == hostname
                &&& notify.port == port
                &&& notify.advertisement == advertisement
                &&& notify.notification_sub_type == notification_sub_type
            },
            ActionModel::Sleep { seconds } => action == (Action::Sleep { seconds }),
            ActionModel::Stop => action == Action::Stop,
        },
{
}

/// Taking leave goes on whatever happens meanwhile, and the end is the end.
pub proof fn leave_is_final(next: usize, event: Event)
    ensures
        (Phase::Leaving { next }).after(Event::Shutdown) == (Phase::Leaving { next }),
        Phase::Finished.after(event) == Phase::Finished,
        multicast_group() == (Destination { address: (239, 255, 255, 250), port: 1900 }),
{
}

} // verus!
