//! Claiming the socket on which clients reach the daemon.

use vstd::prelude::*;
use vstd::string::*;
use crate::request::Answer;

verus! {

/// What came of asking whether a daemon answers on the socket.
pub enum Probe {
    /// No connection came about.
    NoConnection,
    /// The ping could not be sent, for this reason.
    SendFailed(String),
    /// No answer could be read, for this reason.
    RecvFailed(String),
    /// The answer.
    Answered(Answer),
}

/// Whether a daemon is running, or why that cannot be told.
pub open spec fn spec_is_daemon_running(probe: Probe) -> Result<bool, Seq<char>> {
    match probe {
        Probe::NoConnection => Ok(false),
        Probe::SendFailed(reason) => Err(reason@),
        Probe::RecvFailed(reason) => Err(reason@),
        Probe::Answered(Answer::Ping(_)) => Ok(true),
        Probe::Answered(_) => Err("Daemon did not return Answer::Ping, as expected"@),
    }
}

/// Whether a daemon is running, by what came of asking it. Where not even a connection comes
/// about there is none.
pub fn is_daemon_running(probe: Probe) -> (r: Result<bool, String>)
    ensures
        result_view(r) == spec_is_daemon_running(probe),
        match probe {
            Probe::NoConnection => r == Ok::<bool, String>(false),
            Probe::SendFailed(reason) => r == Err::<bool, String>(reason),
            Probe::RecvFailed(reason) => r == Err::<bool, String>(reason),
            Probe::Answered(Answer::Ping(_)) => r == Ok::<bool, String>(true),
            Probe::Answered(_) => r matches Err(reason) && reason@
                == "Daemon did not return Answer::Ping, as expected"@,
        },
{
    match probe {
        Probe::NoConnection => Ok(false),
        Probe::SendFailed(reason) => Err(reason),
        Probe::RecvFailed(reason) => Err(reason),
        Probe::Answered(Answer::Ping(_)) => Ok(true),
        Probe::Answered(_) => Err("Daemon did not return Answer::Ping, as expected".to_owned()),
    }
}

/// What has to be done next to claim the socket.
pub enum SocketStage {
    /// See whether the socket is there.
    CheckSocket,
    /// Ask whether a daemon answers on it.
    ProbeDaemon,
    /// Delete the socket that a daemon has left behind.
    RemoveSocket,
    /// See whether the path of the socket has a directory.
    FindDirectory,
    /// See whether that directory is there.
    CheckDirectory,
    /// Make the directory.
    CreateDirectory,
    /// Make the socket and listen on it.
    Listen,
    /// Nothing: the socket is claimed.
    Ready,
    /// Nothing: the socket cannot be claimed, for this reason.
    Failed(String),
}

/// What came of a [`SocketStage`].
pub enum SocketEvent {
    SocketExists(bool),
    DaemonRunning(Result<bool, String>),
    SocketRemoved(Result<(), String>),
    DirectoryFound(bool),
    DirectoryExists(bool),
    DirectoryCreated(Result<(), String>),
    Listening(Result<(), String>),
}

/// The mathematical counterpart of [`SocketStage`].
#[verifier::ext_equal]
pub enum SocketStageView {
    CheckSocket,
    ProbeDaemon,
    RemoveSocket,
    FindDirectory,
    CheckDirectory,
    CreateDirectory,
    Listen,
    Ready,
    Failed(Seq<char>),
}

/// The mathematical counterpart of [`SocketEvent`]. What either works or fails is taken by the
/// reason for which it has failed, if it has.
pub enum SocketEventView {
    SocketExists(bool),
    DaemonRunning(Result<bool, Seq<char>>),
    SocketRemoved(Option<Seq<char>>),
    DirectoryFound(bool),
    DirectoryExists(bool),
    DirectoryCreated(Option<Seq<char>>),
    Listening(Option<Seq<char>>),
}

/// A result whose error is taken by its characters.
pub open spec fn result_view<A>(r: Result<A, String>) -> Result<A, Seq<char>> {
    match r {
        Ok(a) => Ok(a),
        Err(e) => Err(e@),
    }
}

/// The reason for which something has failed, if it has.
pub open spec fn failure(r: Result<(), String>) -> Option<Seq<char>> {
    match r {
        Ok(_) => None,
        Err(e) => Some(e@),
    }
}

impl View for SocketStage {
    type V = SocketStageView;

    open spec fn view(&self) -> SocketStageView {
        match *self {
            SocketStage::CheckSocket => SocketStageView::CheckSocket,
            SocketStage::ProbeDaemon => SocketStageView::ProbeDaemon,
            SocketStage::RemoveSocket => SocketStageView::RemoveSocket,
            SocketStage::FindDirectory => SocketStageView::FindDirectory,
            SocketStage::CheckDirectory => SocketStageView::CheckDirectory,
            SocketStage::CreateDirectory => SocketStageView::CreateDirectory,
            SocketStage::Listen => SocketStageView::Listen,
            SocketStage::Ready => SocketStageView::Ready,
            SocketStage::Failed(reason) => SocketStageView::Failed(reason@),
        }
    }
}

impl View for SocketEvent {
    type V = SocketEventView;

    open spec fn view(&self) -> SocketEventView {
        match *self {
            SocketEvent::SocketExists(b) => SocketEventView::SocketExists(b),
            SocketEvent::DaemonRunning(r) => SocketEventView::DaemonRunning(result_view(r)),
            SocketEvent::SocketRemoved(r) => SocketEventView::SocketRemoved(failure(r)),
            SocketEvent::DirectoryFound(b) => SocketEventView::DirectoryFound(b),
            SocketEvent::DirectoryExists(b) => SocketEventView::DirectoryExists(b),
            SocketEvent::DirectoryCreated(r) => SocketEventView::DirectoryCreated(failure(r)),
            SocketEvent::Listening(r) => SocketEventView::Listening(failure(r)),
        }
    }
}

impl SocketStageView {
    /// What an event leads to. One that is not about what was to be done leads nowhere.
    pub open spec fn step(self, event: SocketEventView) -> SocketStageView {
        match (self, event) {
            (SocketStageView::CheckSocket, SocketEventView::SocketExists(exists_)) => if exists_ {
                SocketStageView::ProbeDaemon
            } else {
                SocketStageView::FindDirectory
            },
            (SocketStageView::ProbeDaemon, SocketEventView::DaemonRunning(r)) => match r {
                Ok(true) => SocketStageView::Failed(
                    "There is an swww-daemon instance already running on this socket!"@,
                ),
                Ok(false) => SocketStageView::RemoveSocket,
                Err(reason) => SocketStageView::Failed(reason),
            },
            (SocketStageView::RemoveSocket, SocketEventView::SocketRemoved(r)) => match r {
                None => SocketStageView::FindDirectory,
                Some(reason) => SocketStageView::Failed(
                    "failed to delete previous socket: "@ + reason,
                ),
            },
            (SocketStageView::FindDirectory, SocketEventView::DirectoryFound(found)) => if found {
                SocketStageView::CheckDirectory
            } else {
                SocketStageView::Failed("couldn't find a valid runtime directory"@)
            },
            (
                SocketStageView::CheckDirectory,
                SocketEventView::DirectoryExists(exists_),
            ) => if exists_ {
                SocketStageView::Listen
            } else {
                SocketStageView::CreateDirectory
            },
            (SocketStageView::CreateDirectory, SocketEventView::DirectoryCreated(r)) => match r {
                None => SocketStageView::Listen,
                Some(reason) => SocketStageView::Failed("failed to create runtime dir: "@ + reason),
            },
            (SocketStageView::Listen, SocketEventView::Listening(r)) => match r {
                None => SocketStageView::Ready,
                Some(reason) => SocketStageView::Failed(reason),
            },
            _ => self,
        }
    }

    /// What a series of events leads to.
    pub open spec fn run(events: Seq<SocketEventView>) -> SocketStageView
        decreases events.len(),
    {
        if events.len() == 0 {
            SocketStageView::CheckSocket
        } else {
            SocketStageView::run(events.drop_last()).step(events.last())
        }
    }
}

/// What is to be done first to claim the socket.
pub fn claim_socket() -> (stage: SocketStage)
    ensures
        stage is CheckSocket,
{
    SocketStage::CheckSocket
}

/// What is to be done next to claim the socket, by what came of what was done last.
pub fn claim_socket_step(stage: SocketStage, event: SocketEvent) -> (next: SocketStage)
    ensures
        next@ == stage@.step(event@),
{
    match (stage, event) {
        (SocketStage::CheckSocket, SocketEvent::SocketExists(there)) => {
            if there {
                SocketStage::ProbeDaemon
            } else {
                SocketStage::FindDirectory
            }
        },
        (SocketStage::ProbeDaemon, SocketEvent::DaemonRunning(r)) => match r {
            Ok(true) => SocketStage::Failed(
                "There is an swww-daemon instance already running on this socket!".to_owned(),
            ),
            Ok(false) => SocketStage::RemoveSocket,
            Err(reason) => SocketStage::Failed(reason),
        },
        (SocketStage::RemoveSocket, SocketEvent::SocketRemoved(r)) => match r {
            Ok(()) => SocketStage::FindDirectory,
            Err(reason) => SocketStage::Failed(
                "failed to delete previous socket: ".to_owned().concat(reason.as_str()),
            ),
        },
        (SocketStage::FindDirectory, SocketEvent::DirectoryFound(found)) => {
            if found {
                SocketStage::CheckDirectory
            } else {
                SocketStage::Failed("couldn't find a valid runtime directory".to_owned())
            }
        },
        (SocketStage::CheckDirectory, SocketEvent::DirectoryExists(there)) => {
            if there {
                SocketStage::Listen
            } else {
                SocketStage::CreateDirectory
            }
        },
        (SocketStage::CreateDirectory, SocketEvent::DirectoryCreated(r)) => match r {
            Ok(()) => SocketStage::Listen,
            Err(reason) => SocketStage::Failed(
                "failed to create runtime dir: ".to_owned().concat(reason.as_str()),
            ),
        },
        (SocketStage::Listen, SocketEvent::Listening(r)) => match r {
            Ok(()) => SocketStage::Ready,
            Err(reason) => SocketStage::Failed(reason),
        },
        (stage, _) => stage,
    }
}

/// Among `events` are that the socket was not there, or that it was, no daemon answered on it,
/// and it was deleted.
pub open spec fn vacant(events: Seq<SocketEventView>) -> bool {
    ||| events.contains(SocketEventView::SocketExists(false))
    ||| events.contains(SocketEventView::DaemonRunning(Ok(false))) && events.contains(
        SocketEventView::SocketRemoved(None),
    )
}

/// Among `events` are that the directory of the socket was there, or that it was made.
pub open spec fn housed(events: Seq<SocketEventView>) -> bool {
    ||| events.contains(SocketEventView::DirectoryExists(true))
    ||| events.contains(SocketEventView::DirectoryCreated(None))
}

proof fn lemma_socket_run(events: Seq<SocketEventView>)
    ensures
        ({
            let stage = SocketStageView::run(events);
            &&& stage is RemoveSocket ==> events.contains(
                SocketEventView::DaemonRunning(Ok(false)),
            )
            &&& stage is FindDirectory || stage is CheckDirectory || stage is CreateDirectory
                || stage is Listen || stage is Ready ==> vacant(events)
            &&& stage is Listen || stage is Ready ==> housed(events)
            &&& stage is Ready ==> events.contains(SocketEventView::Listening(None))
        }),
    decreases events.len(),
{
    if events.len() > 0 {
        let rest = events.drop_last();
        lemma_socket_run(rest);
        assert(events[events.len() - 1] == events.last());
        assert forall|e: SocketEventView| rest.contains(e) implies #[trigger] events.contains(
            e,
        ) by {
            let k = choose|k: int| 0 <= k < rest.len() && rest[k] == e;
            assert(events[k] == e);
        }
    }
}

/// The daemon listens only on a socket that was vacant, in a directory that is there: a socket
/// on which another daemon answers is never taken over.
pub proof fn law_only_a_vacant_socket_is_claimed(events: Seq<SocketEventView>)
    requires
        SocketStageView::run(events) is Ready,
    ensures
        vacant(events),
        housed(events),
        events.contains(SocketEventView::Listening(None)),
{
    lemma_socket_run(events);
}

impl SocketStageView {
    /// Whether `event` tells what came of what was to be done.
    pub open spec fn expects(self, event: SocketEventView) -> bool {
        match self {
            SocketStageView::CheckSocket => event is SocketExists,
            SocketStageView::ProbeDaemon => event is DaemonRunning,
            SocketStageView::RemoveSocket => event is SocketRemoved,
            SocketStageView::FindDirectory => event is DirectoryFound,
            SocketStageView::CheckDirectory => event is DirectoryExists,
            SocketStageView::CreateDirectory => event is DirectoryCreated,
            SocketStageView::Listen => event is Listening,
            SocketStageView::Ready => false,
            SocketStageView::Failed(_) => false,
        }
    }

    /// The most events that can follow before the socket is claimed.
    pub open spec fn remaining(self) -> nat {
        match self {
            SocketStageView::CheckSocket => 7,
            SocketStageView::ProbeDaemon => 6,
            SocketStageView::RemoveSocket => 5,
            SocketStageView::FindDirectory => 4,
            SocketStageView::CheckDirectory => 3,
            SocketStageView::CreateDirectory => 2,
            SocketStageView::Listen => 1,
            SocketStageView::Ready => 0,
            SocketStageView::Failed(_) => 0,
        }
    }

    /// Every event tells what came of what was to be done.
    pub open spec fn fits(events: Seq<SocketEventView>) -> bool
        decreases events.len(),
    {
        events.len() > 0 ==> {
            &&& SocketStageView::fits(events.drop_last())
            &&& SocketStageView::run(events.drop_last()).expects(events.last())
        }
    }
}

impl SocketEventView {
    /// Whether the event stands in the way of the claim: a daemon answers or cannot be asked,
    /// there is no place for the socket, or something has failed.
    pub open spec fn is_obstacle(self) -> bool {
        match self {
            SocketEventView::SocketExists(_) => false,
            SocketEventView::DaemonRunning(r) => r != Ok::<bool, Seq<char>>(false),
            SocketEventView::SocketRemoved(failure) => failure is Some,
            SocketEventView::DirectoryFound(found) => !found,
            SocketEventView::DirectoryExists(_) => false,
            SocketEventView::DirectoryCreated(failure) => failure is Some,
            SocketEventView::Listening(failure) => failure is Some,
        }
    }
}

/// What happens when nothing stands in the way of the claim, whether a socket was left behind or
/// not, and whether its directory is there or not.
pub open spec fn unhindered(left_behind: bool, directory_there: bool) -> Seq<SocketEventView> {
    (if left_behind {
        seq![
            SocketEventView::SocketExists(true),
            SocketEventView::DaemonRunning(Ok(false)),
            SocketEventView::SocketRemoved(None),
        ]
    } else {
        seq![SocketEventView::SocketExists(false)]
    }) + seq![SocketEventView::DirectoryFound(true)] + (if directory_there {
        seq![SocketEventView::DirectoryExists(true)]
    } else {
        seq![SocketEventView::DirectoryExists(false), SocketEventView::DirectoryCreated(None)]
    }) + seq![SocketEventView::Listening(None)]
}

/// The events before one more, and that one.
proof fn lemma_socket_push(events: Seq<SocketEventView>, event: SocketEventView)
    ensures
        SocketStageView::run(events.push(event)) == SocketStageView::run(events).step(event),
{
    assert(events.push(event).drop_last() =~= events);
}

/// A vacant socket in a directory that is there, or can be made, is claimed once it can be
/// listened on.
pub proof fn law_vacant_socket_is_claimed(left_behind: bool, directory_there: bool)
    ensures
        SocketStageView::run(unhindered(left_behind, directory_there)) is Ready,
{
    let none = Seq::<SocketEventView>::empty();
    let start = if left_behind {
        let there = none.push(SocketEventView::SocketExists(true));
        let silent = there.push(SocketEventView::DaemonRunning(Ok(false)));
        lemma_socket_push(none, SocketEventView::SocketExists(true));
        lemma_socket_push(there, SocketEventView::DaemonRunning(Ok(false)));
        lemma_socket_push(silent, SocketEventView::SocketRemoved(None));
        silent.push(SocketEventView::SocketRemoved(None))
    } else {
        lemma_socket_push(none, SocketEventView::SocketExists(false));
        none.push(SocketEventView::SocketExists(false))
    };
    assert(SocketStageView::run(start) is FindDirectory);
    lemma_socket_push(start, SocketEventView::DirectoryFound(true));
    let found = start.push(SocketEventView::DirectoryFound(true));
    let housed = if directory_there {
        lemma_socket_push(found, SocketEventView::DirectoryExists(true));
        found.push(SocketEventView::DirectoryExists(true))
    } else {
        let missing = found.push(SocketEventView::DirectoryExists(false));
        lemma_socket_push(found, SocketEventView::DirectoryExists(false));
        lemma_socket_push(missing, SocketEventView::DirectoryCreated(None));
        missing.push(SocketEventView::DirectoryCreated(None))
    };
    assert(SocketStageView::run(housed) is Listen);
    lemma_socket_push(housed, SocketEventView::Listening(None));
    assert(unhindered(left_behind, directory_there) =~= housed.push(
        SocketEventView::Listening(None),
    ));
}

/// The claim fails only where something stands in its way, and otherwise never takes more than
/// seven steps: as long as nothing does, either the socket is claimed or there is a step left.
pub proof fn law_claim_fails_only_for_a_reason(events: Seq<SocketEventView>)
    requires
        SocketStageView::fits(events),
        forall|i: int| 0 <= i < events.len() ==> !(#[trigger] events[i]).is_obstacle(),
    ensures
        !(SocketStageView::run(events) is Failed),
        events.len() + SocketStageView::run(events).remaining() <= 7,
        SocketStageView::run(events) is Ready <==> SocketStageView::run(events).remaining() == 0,
    decreases events.len(),
{
    if events.len() > 0 {
        let rest = events.drop_last();
        assert forall|i: int| 0 <= i < rest.len() implies !(#[trigger] rest[i]).is_obstacle() by {
            assert(rest[i] == events[i]);
        }
        law_claim_fails_only_for_a_reason(rest);
        assert(!events[events.len() - 1].is_obstacle());
    }
}

/// A daemon that answers makes the claim fail, and nothing that happens afterwards changes that.
pub proof fn law_running_daemon_refuses(
    events: Seq<SocketEventView>,
    later: Seq<SocketEventView>,
)
    requires
        SocketStageView::run(events) is ProbeDaemon,
    ensures
        SocketStageView::run(
            events.push(SocketEventView::DaemonRunning(Ok(true))) + later,
        ) == SocketStageView::Failed(
            "There is an swww-daemon instance already running on this socket!"@,
        ),
    decreases later.len(),
{
    let refused = events.push(SocketEventView::DaemonRunning(Ok(true)));
    if later.len() == 0 {
        assert(refused + later =~= refused);
        assert(refused.drop_last() =~= events);
    } else {
        law_running_daemon_refuses(events, later.drop_last());
        assert((refused + later).drop_last() =~= refused + later.drop_last());
    }
}

/// Where each step of the claim leads when it goes well.
pub proof fn law_steps_of_the_claim(there: bool)
    ensures
        SocketStageView::CheckSocket.step(SocketEventView::SocketExists(there)) == if there {
            SocketStageView::ProbeDaemon
        } else {
            SocketStageView::FindDirectory
        },
        SocketStageView::ProbeDaemon.step(SocketEventView::DaemonRunning(Ok(false)))
            is RemoveSocket,
        SocketStageView::RemoveSocket.step(SocketEventView::SocketRemoved(None)) is FindDirectory,
        SocketStageView::FindDirectory.step(SocketEventView::DirectoryFound(true))
            is CheckDirectory,
        SocketStageView::CheckDirectory.step(SocketEventView::DirectoryExists(there)) == if there {
            SocketStageView::Listen
        } else {
            SocketStageView::CreateDirectory
        },
        SocketStageView::CreateDirectory.step(SocketEventView::DirectoryCreated(None)) is Listen,
        SocketStageView::Listen.step(SocketEventView::Listening(None)) is Ready,
{
}

/// Why the claim fails where it does: the reason that was met is always part of what is reported.
pub proof fn law_reasons_are_reported(reason: Seq<char>)
    ensures
        SocketStageView::ProbeDaemon.step(SocketEventView::DaemonRunning(Ok(true)))
            == SocketStageView::Failed(
            "There is an swww-daemon instance already running on this socket!"@,
        ),
        SocketStageView::ProbeDaemon.step(SocketEventView::DaemonRunning(Err(reason)))
            == SocketStageView::Failed(reason),
        SocketStageView::RemoveSocket.step(SocketEventView::SocketRemoved(Some(reason)))
            == SocketStageView::Failed("failed to delete previous socket: "@ + reason),
        SocketStageView::FindDirectory.step(SocketEventView::DirectoryFound(false))
            == SocketStageView::Failed("couldn't find a valid runtime directory"@),
        SocketStageView::CreateDirectory.step(SocketEventView::DirectoryCreated(Some(reason)))
            == SocketStageView::Failed("failed to create runtime dir: "@ + reason),
        SocketStageView::Listen.step(SocketEventView::Listening(Some(reason)))
            == SocketStageView::Failed(reason),
{
}

/// What does not tell what came of what was to be done leads nowhere, and nothing leads on from the
/// end of the claim.
pub proof fn law_stray_news_lead_nowhere(stage: SocketStageView, event: SocketEventView)
    requires
        !(stage is CheckSocket && event is SocketExists),
        !(stage is ProbeDaemon && event is DaemonRunning),
        !(stage is RemoveSocket && event is SocketRemoved),
        !(stage is FindDirectory && event is DirectoryFound),
        !(stage is CheckDirectory && event is DirectoryExists),
        !(stage is CreateDirectory && event is DirectoryCreated),
        !(stage is Listen && event is Listening),
    ensures
        stage.step(event) == stage,
{
}

/// What came of a step is what the event holds, and a reason is its letters.
pub proof fn law_event_shows_its_fields(
    there: bool,
    running: Result<bool, String>,
    done: Result<(), String>,
)
    ensures
        SocketEvent::SocketExists(there)@ == SocketEventView::SocketExists(there),
        SocketEvent::DirectoryFound(there)@ == SocketEventView::DirectoryFound(there),
        SocketEvent::DirectoryExists(there)@ == SocketEventView::DirectoryExists(there),
        running matches Ok(b) ==> SocketEvent::DaemonRunning(running)@
            == SocketEventView::DaemonRunning(Ok(b)),
        running matches Err(reason) ==> SocketEvent::DaemonRunning(running)@
            == SocketEventView::DaemonRunning(Err(reason@)),
        done is Ok ==> SocketEvent::SocketRemoved(done)@ == SocketEventView::SocketRemoved(None),
        done is Ok ==> SocketEvent::DirectoryCreated(done)@
            == SocketEventView::DirectoryCreated(None),
        done is Ok ==> SocketEvent::Listening(done)@ == SocketEventView::Listening(None),
        done matches Err(reason) ==> SocketEvent::SocketRemoved(done)@
            == SocketEventView::SocketRemoved(Some(reason@)),
        done matches Err(reason) ==> SocketEvent::DirectoryCreated(done)@
            == SocketEventView::DirectoryCreated(Some(reason@)),
        done matches Err(reason) ==> SocketEvent::Listening(done)@ == SocketEventView::Listening(
            Some(reason@),
        ),
{
}

/// What is to be done next is what the stage is, and a reason is its letters.
pub proof fn law_stage_of_the_claim_shows_its_fields(stage: SocketStage)
    ensures
        stage is CheckSocket <==> stage@ is CheckSocket,
        stage is ProbeDaemon <==> stage@ is ProbeDaemon,
        stage is RemoveSocket <==> stage@ is RemoveSocket,
        stage is FindDirectory <==> stage@ is FindDirectory,
        stage is CheckDirectory <==> stage@ is CheckDirectory,
        stage is CreateDirectory <==> stage@ is CreateDirectory,
        stage is Listen <==> stage@ is Listen,
        stage is Ready <==> stage@ is Ready,
        stage matches SocketStage::Failed(reason) ==> stage@ == SocketStageView::Failed(reason@),
{
}

/// A daemon is running if and only if the ping is answered as a ping is, whatever the answer says,
/// and none is if and only if no connection comes about. In every other case that cannot be told,
/// and the reason is passed on.
pub proof fn law_when_a_daemon_is_running(probe: Probe)
    ensures
        ({
            let r = spec_is_daemon_running(probe);
            &&& r == Ok::<bool, Seq<char>>(true) <==> (probe is Answered && probe->Answered_0 is
                Ping)
            &&& r == Ok::<bool, Seq<char>>(false) <==> probe is NoConnection
            &&& probe matches Probe::SendFailed(reason) ==> r == Err::<bool, Seq<char>>(reason@)
            &&& probe matches Probe::RecvFailed(reason) ==> r == Err::<bool, Seq<char>>(reason@)
            &&& probe is Answered && !(probe->Answered_0 is Ping) ==> r == Err::<bool, Seq<char>>(
                "Daemon did not return Answer::Ping, as expected"@,
            )
        }),
{
}

} // verus!
