use geopmdrs::lifecycle::{
    Action, Outcome, Startup, StartupError, PRIVATE_SOCKET_PATH, PUBLIC_SOCKET_MODE,
    PUBLIC_SOCKET_PATH,
};

fn run(outcomes: &[Outcome]) -> Startup {
    let mut step = Startup::begin();
    for outcome in outcomes {
        step = step.advance(*outcome);
    }
    step
}

#[test]
fn startup_begins_with_the_stale_socket() {
    assert_eq!(Startup::begin(), Startup::RemoveStaleSocket);
}

#[test]
fn stale_socket_is_removed_and_rebound() {
    let mut step = Startup::begin();
    assert_eq!(step, Startup::RemoveStaleSocket);
    step = step.advance(Outcome::Done);
    assert_eq!(step, Startup::BindPublicSocket);
    step = step.advance(Outcome::Done);
    assert_eq!(step, Startup::SetPermissions);
    step = step.advance(Outcome::Done);
    assert_eq!(step, Startup::ConnectBackend);
    step = step.advance(Outcome::Done);
    assert_eq!(step, Startup::Serve);
}

#[test]
fn absent_socket_file_is_no_error() {
    let step = Startup::RemoveStaleSocket.advance(Outcome::NotFound);
    assert_eq!(step, Startup::BindPublicSocket);
    assert_eq!(
        run(&[Outcome::NotFound, Outcome::Done, Outcome::Done, Outcome::Done]),
        Startup::Serve
    );
}

#[test]
fn socket_file_that_cannot_be_removed_is_fatal() {
    assert_eq!(
        Startup::RemoveStaleSocket.advance(Outcome::Failed),
        Startup::Abort(StartupError::StaleSocketNotRemoved)
    );
    assert_eq!(
        run(&[Outcome::Failed, Outcome::Done, Outcome::Done, Outcome::Done]),
        Startup::Abort(StartupError::StaleSocketNotRemoved)
    );
}

#[test]
fn unreachable_backend_is_fatal_before_any_serving() {
    assert_eq!(
        Startup::ConnectBackend.advance(Outcome::Failed),
        Startup::Abort(StartupError::BackendUnreachable)
    );
    assert_eq!(
        Startup::ConnectBackend.advance(Outcome::NotFound),
        Startup::Abort(StartupError::BackendUnreachable)
    );
    let all = [Outcome::Done, Outcome::NotFound, Outcome::Failed];
    for unreachable in [Outcome::NotFound, Outcome::Failed] {
        let mut step = run(&[Outcome::Done, Outcome::Done, Outcome::Done, unreachable]);
        assert_eq!(step, Startup::Abort(StartupError::BackendUnreachable));
        for later in all {
            step = step.advance(later);
            assert_eq!(step, Startup::Abort(StartupError::BackendUnreachable));
        }
    }
}

#[test]
fn bind_failure_is_fatal() {
    assert_eq!(
        Startup::BindPublicSocket.advance(Outcome::Failed),
        Startup::Abort(StartupError::BindFailed)
    );
    assert_eq!(
        Startup::BindPublicSocket.advance(Outcome::NotFound),
        Startup::Abort(StartupError::BindFailed)
    );
}

#[test]
fn permission_failure_is_fatal() {
    assert_eq!(
        Startup::SetPermissions.advance(Outcome::Failed),
        Startup::Abort(StartupError::PermissionsNotSet)
    );
    assert_eq!(
        Startup::SetPermissions.advance(Outcome::NotFound),
        Startup::Abort(StartupError::PermissionsNotSet)
    );
}

#[test]
fn serving_and_giving_up_are_final() {
    let errors = [
        StartupError::BackendUnreachable,
        StartupError::StaleSocketNotRemoved,
        StartupError::BindFailed,
        StartupError::PermissionsNotSet,
    ];
    for outcome in [Outcome::Done, Outcome::NotFound, Outcome::Failed] {
        assert_eq!(Startup::Serve.advance(outcome), Startup::Serve);
        for error in errors {
            assert_eq!(Startup::Abort(error).advance(outcome), Startup::Abort(error));
        }
    }
}

#[test]
fn serves_only_after_four_clean_steps() {
    let all = [Outcome::Done, Outcome::NotFound, Outcome::Failed];
    for a in all {
        for b in all {
            for c in all {
                for d in all {
                    let clean = a != Outcome::Failed
                        && b == Outcome::Done
                        && c == Outcome::Done
                        && d == Outcome::Done;
                    assert_eq!(run(&[a, b, c, d]) == Startup::Serve, clean);
                    assert_eq!(matches!(run(&[a, b, c, d]), Startup::Abort(_)), !clean);
                    assert_ne!(run(&[a, b, c]), Startup::Serve);
                }
            }
        }
    }
}

#[test]
fn first_failure_decides_the_error() {
    let bad = Outcome::Failed;
    let ok = Outcome::Done;
    assert_eq!(run(&[bad, bad, bad, bad]), Startup::Abort(StartupError::StaleSocketNotRemoved));
    assert_eq!(run(&[ok, bad, bad, bad]), Startup::Abort(StartupError::BindFailed));
    assert_eq!(run(&[ok, ok, bad, bad]), Startup::Abort(StartupError::PermissionsNotSet));
    assert_eq!(run(&[ok, ok, ok, bad]), Startup::Abort(StartupError::BackendUnreachable));
}

#[test]
fn each_step_spells_out_its_action() {
    let public = "/run/geopm-service/grpc.sock";
    let private = "/run/geopm-service/grpc-private.sock";
    assert_eq!(Startup::RemoveStaleSocket.action(), Action::RemoveFile(public));
    assert_eq!(Startup::BindPublicSocket.action(), Action::Bind(public));
    assert_eq!(Startup::SetPermissions.action(), Action::SetPermissions(public, 0o777));
    assert_eq!(Startup::ConnectBackend.action(), Action::Connect(private));
    assert_eq!(Startup::Serve.action(), Action::Serve);
    assert_eq!(
        Startup::Abort(StartupError::BindFailed).action(),
        Action::Abort(StartupError::BindFailed)
    );
}

#[test]
fn socket_constants() {
    assert_eq!(PUBLIC_SOCKET_PATH, "/run/geopm-service/grpc.sock");
    assert_eq!(PRIVATE_SOCKET_PATH, "/run/geopm-service/grpc-private.sock");
    assert_eq!(PUBLIC_SOCKET_MODE, 0o777);
    assert_eq!(PUBLIC_SOCKET_MODE, 511);
}
