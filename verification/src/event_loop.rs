//! The main loop: what to do next, and whom an event is for.

use vstd::prelude::*;
use crate::daemon::{Daemon, DaemonView};
use crate::exit::should_daemon_exit;
use crate::objects::{Interface, WL_DISPLAY};
use crate::time::Timespec;

verus! {

/// What the main loop does next.
#[derive(Clone, Copy, Debug, PartialEq, Eq, Structural)]
pub enum Turn {
    /// Send what is to be sent to the compositor.
    Flush,
    /// Wait for the compositor or a client, no longer than this.
    Poll(Option<Timespec>),
    /// Handle what the compositor has sent. A client may be waiting too.
    Messages { client: bool },
    /// Accept the client that waits, and serve it.
    Accept,
    /// Make a pass over the animators.
    Draw,
    /// Leave the loop.
    Exit,
    /// Leave the loop with the error that was met.
    Fail,
}

/// Why waiting, or accepting a client, has failed.
#[derive(Clone, Copy, Debug, PartialEq, Eq, Structural)]
pub enum IoFailure {
    Interrupted,
    WouldBlock,
    Other,
}

/// What came of a [`Turn`].
#[derive(Clone, Copy, Debug, PartialEq, Eq, Structural)]
pub enum TurnEvent {
    /// Everything was sent, or not.
    Flushed(bool),
    /// The compositor has sent something, and a client is waiting.
    Ready { compositor: bool, client: bool },
    /// Waiting has failed.
    PollFailed(IoFailure),
    /// Everything the compositor has sent was handled, or not.
    Handled(bool),
    /// A client was served.
    Served,
    /// No client could be accepted.
    AcceptFailed(IoFailure),
    /// The pass is over.
    Drawn,
}

impl IoFailure {
    /// Whether to go on as if nothing had happened.
    pub open spec fn is_passing(self) -> bool {
        self is Interrupted || self is WouldBlock
    }
}

impl DaemonView {
    /// The start of a turn: it is left where the daemon was asked to terminate.
    pub open spec fn turn(self) -> Turn {
        if self.exit {
            Turn::Exit
        } else {
            Turn::Flush
        }
    }

    /// The end of a turn: a pass over the animators, if there is something to draw.
    pub open spec fn turn_end(self) -> Turn {
        if self.poll_time is Some {
            Turn::Draw
        } else {
            self.turn()
        }
    }

    /// A failure that passes starts another turn, and any other leaves the loop.
    pub open spec fn after_failure(self, failure: IoFailure) -> Turn {
        if failure.is_passing() {
            self.turn()
        } else {
            Turn::Fail
        }
    }

    /// What an event leads to. The compositor comes before a client, and drawing comes last. One
    /// that is not about what was to be done leads nowhere.
    pub open spec fn turn_step(self, turn: Turn, event: TurnEvent) -> Turn {
        match (turn, event) {
            (Turn::Flush, TurnEvent::Flushed(sent)) => if sent {
                Turn::Poll(self.poll_time)
            } else {
                Turn::Fail
            },
            (Turn::Poll(_), TurnEvent::Ready { compositor, client }) => if compositor {
                Turn::Messages { client }
            } else if client {
                Turn::Accept
            } else {
                self.turn_end()
            },
            (Turn::Poll(_), TurnEvent::PollFailed(failure)) => self.after_failure(failure),
            (Turn::Messages { client }, TurnEvent::Handled(all)) => if !all {
                Turn::Fail
            } else if client {
                Turn::Accept
            } else {
                self.turn_end()
            },
            (Turn::Accept, TurnEvent::Served) => self.turn_end(),
            (Turn::Accept, TurnEvent::AcceptFailed(failure)) => self.after_failure(failure),
            (Turn::Draw, TurnEvent::Drawn) => self.turn(),
            _ => turn,
        }
    }
}

impl Daemon {
    /// What the loop does at the start of a turn.
    pub fn turn(&self) -> (r: Turn)
        ensures
            r == self@.turn(),
    {
        if should_daemon_exit(&self.exit) {
            Turn::Exit
        } else {
            Turn::Flush
        }
    }

    fn turn_end(&self) -> (r: Turn)
        ensures
            r == self@.turn_end(),
    {
        if self.poll_time.is_some() {
            Turn::Draw
        } else {
            self.turn()
        }
    }

    fn after_failure(&self, failure: IoFailure) -> (r: Turn)
        ensures
            r == self@.after_failure(failure),
    {
        match failure {
            IoFailure::Interrupted | IoFailure::WouldBlock => self.turn(),
            IoFailure::Other => Turn::Fail,
        }
    }

    /// What the loop does next, by what came of what it did last.
    pub fn turn_step(&self, turn: Turn, event: TurnEvent) -> (r: Turn)
        ensures
            r == self@.turn_step(turn, event),
    {
        match (turn, event) {
            (Turn::Flush, TurnEvent::Flushed(sent)) => {
                if sent {
                    Turn::Poll(self.poll_time)
                } else {
                    Turn::Fail
                }
            },
            (Turn::Poll(_), TurnEvent::Ready { compositor, client }) => {
                if compositor {
                    Turn::Messages { client }
                } else if client {
                    Turn::Accept
                } else {
                    self.turn_end()
                }
            },
            (Turn::Poll(_), TurnEvent::PollFailed(failure)) => self.after_failure(failure),
            (Turn::Messages { client }, TurnEvent::Handled(all)) => {
                if !all {
                    Turn::Fail
                } else if client {
                    Turn::Accept
                } else {
                    self.turn_end()
                }
            },
            (Turn::Accept, TurnEvent::Served) => self.turn_end(),
            (Turn::Accept, TurnEvent::AcceptFailed(failure)) => self.after_failure(failure),
            (Turn::Draw, TurnEvent::Drawn) => self.turn(),
            (turn, _) => turn,
        }
    }

    /// The interface whose event a message of `sender` is; `None` where no such object is known.
    pub fn route(&self, sender: u32) -> (r: Option<Interface>)
        requires
            self.wf(),
        ensures
            r == self@.route(sender),
    {
        if sender == WL_DISPLAY {
            Some(Interface::WlDisplay)
        } else {
            match self.objects.get(sender) {
                Some(object) => Some(object.interface()),
                None => None,
            }
        }
    }
}

impl DaemonView {
    /// The interface whose event a message of `sender` is.
    pub open spec fn route(self, sender: u32) -> Option<Interface> {
        if sender == WL_DISPLAY {
            Some(Interface::WlDisplay)
        } else {
            match crate::objects::lookup(self.objects, sender) {
                Some(object) => Some(object.spec_interface()),
                None => None,
            }
        }
    }
}

/// The messages of a global that was bound are handled as events of the interface that the
/// global has announced.
pub proof fn law_bound_globals_are_routed(v: DaemonView, interface: Seq<char>, id: u32)
    requires
        id != WL_DISPLAY,
        crate::objects::lookup(v.objects, id) is Some,
        crate::objects::lookup(v.objects, id) == crate::objects::spec_bound_as(interface),
    ensures
        v.route(id) matches Some(routed) && routed.name() == interface,
{
}

/// The loop draws only when a poll time is set. If one is set it draws once everything that the
/// wait has brought is dealt with: after a client was served, after the messages of the compositor
/// where no client waits, and at once where the wait has brought nothing.
pub proof fn law_drawing_needs_a_poll_time(v: DaemonView, turn: Turn, event: TurnEvent)
    requires
        turn != Turn::Draw,
    ensures
        v.turn_step(turn, event) == Turn::Draw ==> v.poll_time is Some,
        v.poll_time is Some && turn == Turn::Accept && event == TurnEvent::Served ==> v.turn_step(
            turn,
            event,
        ) == Turn::Draw,
        v.poll_time is Some && turn is Poll && event == (TurnEvent::Ready {
            compositor: false,
            client: false,
        }) ==> v.turn_step(turn, event) == Turn::Draw,
        v.poll_time is Some && turn == (Turn::Messages { client: false }) && event
            == TurnEvent::Handled(true) ==> v.turn_step(turn, event) == Turn::Draw,
{
}

/// Once the daemon was asked to terminate no further turn is begun.
pub proof fn law_no_turn_after_exit(v: DaemonView, turn: Turn, event: TurnEvent)
    requires
        v.exit,
        turn != Turn::Flush,
    ensures
        v.turn() == Turn::Exit,
        v.turn_step(turn, event) != Turn::Flush,
{
}

/// An interrupted wait changes nothing: the loop starts another turn, without drawing.
pub proof fn law_interruptions_start_over(v: DaemonView, turn: Turn, failure: IoFailure)
    requires
        turn is Poll || turn is Accept,
        failure.is_passing(),
    ensures
        turn is Poll ==> v.turn_step(turn, TurnEvent::PollFailed(failure)) == v.turn(),
        turn is Accept ==> v.turn_step(turn, TurnEvent::AcceptFailed(failure)) == v.turn(),
        v.turn() != Turn::Draw,
        v.turn() != Turn::Fail,
{
}

/// What a turn does with what the poll has brought, whatever the compositor has sent: a client is
/// accepted before the turn ends if and only if the poll has reported one, and the messages of the
/// compositor are handled first if and only if it has sent any. Where no client waits, the turn ends
/// once the messages are handled: with a pass over the animators if a poll time is set, and without
/// one otherwise.
pub proof fn law_clients_are_accepted_only_when_they_wait(
    v: DaemonView,
    w: DaemonView,
    timeout: Option<Timespec>,
    compositor: bool,
    client: bool,
)
    ensures
        ({
            let ready = v.turn_step(Turn::Poll(timeout), TurnEvent::Ready { compositor, client });
            // where there are messages, `w` is the daemon once they are handled
            let (last, dealt_with) = if compositor {
                (w, w.turn_step(ready, TurnEvent::Handled(true)))
            } else {
                (v, ready)
            };
            &&& compositor <==> ready is Messages
            &&& compositor ==> ready == (Turn::Messages { client })
            &&& client <==> dealt_with == Turn::Accept
            &&& !client ==> (last.poll_time is Some <==> dealt_with == Turn::Draw)
            &&& !client && last.poll_time is None ==> dealt_with == if last.exit {
                Turn::Exit
            } else {
                Turn::Flush
            }
        }),
{
}

/// What a turn does apart from that. It polls for as long as the poll time says once everything was
/// sent. A client that was served is followed by a pass over the animators if a poll time is set,
/// and a pass by the next turn. Unless the daemon was asked to terminate a turn begins by sending,
/// and failures to send or to handle a message leave the loop.
pub proof fn law_the_order_of_a_turn(v: DaemonView, client: bool, failure: IoFailure)
    ensures
        ({
            let begin = if v.exit {
                Turn::Exit
            } else {
                Turn::Flush
            };
            let passing = failure == IoFailure::Interrupted || failure == IoFailure::WouldBlock;
            &&& v.turn() == begin
            &&& v.turn_step(Turn::Flush, TurnEvent::Flushed(true)) == Turn::Poll(v.poll_time)
            &&& v.turn_step(Turn::Flush, TurnEvent::Flushed(false)) == Turn::Fail
            &&& v.turn_step(Turn::Messages { client }, TurnEvent::Handled(false)) == Turn::Fail
            &&& v.turn_step(Turn::Accept, TurnEvent::Served) == if v.poll_time is Some {
                Turn::Draw
            } else {
                begin
            }
            &&& v.turn_step(Turn::Draw, TurnEvent::Drawn) == begin
            &&& v.turn_step(Turn::Accept, TurnEvent::AcceptFailed(failure)) == if passing {
                begin
            } else {
                Turn::Fail
            }
            &&& forall|timeout: Option<Timespec>| (#[trigger] v.turn_step(
                Turn::Poll(timeout),
                TurnEvent::PollFailed(failure),
            )) == if passing {
                begin
            } else {
                Turn::Fail
            }
        }),
{
}

/// What has nothing to do with what the loop was about to do leads nowhere, and nothing leads back
/// from the end of the loop.
pub proof fn law_stray_events_lead_nowhere(v: DaemonView, turn: Turn, event: TurnEvent)
    requires
        !(turn is Flush && event is Flushed),
        !(turn is Poll && (event is Ready || event is PollFailed)),
        !(turn is Messages && event is Handled),
        !(turn is Accept && (event is Served || event is AcceptFailed)),
        !(turn is Draw && event is Drawn),
    ensures
        v.turn_step(turn, event) == turn,
{
}

/// A message is handled as an event of the display if the display has sent it, and otherwise by
/// what is registered under the id of its sender: there is no way to handle it where nothing is.
pub proof fn law_messages_are_routed_by_their_sender(v: DaemonView, sender: u32)
    ensures
        sender == 1 ==> v.route(sender) == Some(Interface::WlDisplay),
        sender != 1 && (sender == 0 || sender > v.objects.len()) ==> v.route(sender) is None,
        1 < sender <= v.objects.len() && v.objects[sender - 1] is None ==> v.route(sender) is None,
        1 < sender <= v.objects.len() ==> (v.objects[sender - 1] matches Some(object)
            ==> v.route(sender) == Some(object.spec_interface())),
{
}

} // verus!
