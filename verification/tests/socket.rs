use swww_daemon::request::Answer;
use swww_daemon::socket::{
    claim_socket, claim_socket_step, is_daemon_running, Probe, SocketEvent, SocketStage,
};

fn failure(stage: SocketStage) -> String {
    match stage {
        SocketStage::Failed(reason) => reason,
        _ => panic!("the claim did not fail"),
    }
}

#[test]
fn no_connection_means_no_daemon() {
    assert_eq!(is_daemon_running(Probe::NoConnection), Ok(false));
}

#[test]
fn a_ping_means_a_daemon() {
    assert_eq!(is_daemon_running(Probe::Answered(Answer::Ping(true))), Ok(true));
    assert_eq!(is_daemon_running(Probe::Answered(Answer::Ping(false))), Ok(true));
}

#[test]
fn other_answers_are_errors() {
    assert_eq!(
        is_daemon_running(Probe::Answered(Answer::Done)),
        Err("Daemon did not return Answer::Ping, as expected".to_string())
    );
    assert_eq!(
        is_daemon_running(Probe::SendFailed("broken pipe".to_string())),
        Err("broken pipe".to_string())
    );
    assert_eq!(
        is_daemon_running(Probe::RecvFailed("timed out".to_string())),
        Err("timed out".to_string())
    );
}

#[test]
fn a_free_path_is_claimed() {
    let mut stage = claim_socket();
    assert!(matches!(stage, SocketStage::CheckSocket));
    stage = claim_socket_step(stage, SocketEvent::SocketExists(false));
    assert!(matches!(stage, SocketStage::FindDirectory));
    stage = claim_socket_step(stage, SocketEvent::DirectoryFound(true));
    assert!(matches!(stage, SocketStage::CheckDirectory));
    stage = claim_socket_step(stage, SocketEvent::DirectoryExists(true));
    assert!(matches!(stage, SocketStage::Listen));
    stage = claim_socket_step(stage, SocketEvent::Listening(Ok(())));
    assert!(matches!(stage, SocketStage::Ready));
}

#[test]
fn a_stale_socket_is_deleted_first() {
    let mut stage = claim_socket_step(claim_socket(), SocketEvent::SocketExists(true));
    assert!(matches!(stage, SocketStage::ProbeDaemon));
    stage = claim_socket_step(stage, SocketEvent::DaemonRunning(Ok(false)));
    assert!(matches!(stage, SocketStage::RemoveSocket));
    stage = claim_socket_step(stage, SocketEvent::SocketRemoved(Ok(())));
    assert!(matches!(stage, SocketStage::FindDirectory));
}

#[test]
fn a_running_daemon_keeps_its_socket() {
    let mut stage = claim_socket_step(claim_socket(), SocketEvent::SocketExists(true));
    stage = claim_socket_step(stage, SocketEvent::DaemonRunning(Ok(true)));
    stage = claim_socket_step(stage, SocketEvent::SocketRemoved(Ok(())));
    stage = claim_socket_step(stage, SocketEvent::Listening(Ok(())));
    assert_eq!(
        failure(stage),
        "There is an swww-daemon instance already running on this socket!"
    );
}

#[test]
fn a_failed_probe_is_passed_on() {
    let mut stage = claim_socket_step(claim_socket(), SocketEvent::SocketExists(true));
    stage = claim_socket_step(stage, SocketEvent::DaemonRunning(Err("timed out".to_string())));
    assert_eq!(failure(stage), "timed out");
}

#[test]
fn a_socket_that_stays_is_an_error() {
    let stage = claim_socket_step(
        SocketStage::RemoveSocket,
        SocketEvent::SocketRemoved(Err("permission denied".to_string())),
    );
    assert_eq!(failure(stage), "failed to delete previous socket: permission denied");
}

#[test]
fn a_path_without_directory_is_an_error() {
    let stage = claim_socket_step(SocketStage::FindDirectory, SocketEvent::DirectoryFound(false));
    assert_eq!(failure(stage), "couldn't find a valid runtime directory");
}

#[test]
fn a_missing_directory_is_made() {
    let stage = claim_socket_step(SocketStage::CheckDirectory, SocketEvent::DirectoryExists(false));
    assert!(matches!(stage, SocketStage::CreateDirectory));
    let made = claim_socket_step(stage, SocketEvent::DirectoryCreated(Ok(())));
    assert!(matches!(made, SocketStage::Listen));
    let not_made = claim_socket_step(
        SocketStage::CreateDirectory,
        SocketEvent::DirectoryCreated(Err("read-only".to_string())),
    );
    assert_eq!(failure(not_made), "failed to create runtime dir: read-only");
}

#[test]
fn a_socket_that_cannot_be_made_is_an_error() {
    let stage = claim_socket_step(
        SocketStage::Listen,
        SocketEvent::Listening(Err("address in use".to_string())),
    );
    assert_eq!(failure(stage), "address in use");
}

#[test]
fn a_vacant_socket_is_claimed() {
    for left_behind in [false, true] {
        for directory_there in [false, true] {
            let mut events = vec![SocketEvent::SocketExists(left_behind)];
            if left_behind {
                events.push(SocketEvent::DaemonRunning(Ok(false)));
                events.push(SocketEvent::SocketRemoved(Ok(())));
            }
            events.push(SocketEvent::DirectoryFound(true));
            events.push(SocketEvent::DirectoryExists(directory_there));
            if !directory_there {
                events.push(SocketEvent::DirectoryCreated(Ok(())));
            }
            events.push(SocketEvent::Listening(Ok(())));
            let stage = events.into_iter().fold(claim_socket(), claim_socket_step);
            assert!(matches!(stage, SocketStage::Ready));
        }
    }
}
