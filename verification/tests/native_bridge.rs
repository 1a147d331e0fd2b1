use tailsend::native_bridge::{status, TcError, TcEvent, TC_CANCELLED, TC_OK, TC_TIMEOUT};
use tailsend::native_bridge::{TC_EOF, TC_INTERNAL_ERROR, TC_NETWORK_ERROR};
use tailsend::native_stream::{
    pending_read_result, read_outcome, transport_error, write_all_step, write_outcome,
    PendingReadStatus,
};
use tailsend::transport::TransportError;

#[test]
fn status_keeps_nonzero_code() {
    assert_eq!(status(TC_OK), Ok(()));
    assert_eq!(status(TC_TIMEOUT), Err(TcError(TC_TIMEOUT)));
}

#[test]
fn event_layout_matches_c_header() {
    assert_eq!(std::mem::size_of::<TcEvent>(), 32);
    assert_eq!(std::mem::align_of::<TcEvent>(), 8);
}

#[test]
fn error_code_is_kept() {
    assert_eq!(status(TC_CANCELLED).unwrap_err().code(), TC_CANCELLED);
    assert_eq!(status(-7), Err(TcError(-7)));
}


#[test]
fn bridge_statuses_map_to_transport_errors() {
    assert!(matches!(transport_error(TC_EOF), TransportError::Closed));
    assert!(matches!(transport_error(TC_TIMEOUT), TransportError::Timeout));
    assert!(matches!(transport_error(TC_CANCELLED), TransportError::Cancelled));
    match transport_error(TC_NETWORK_ERROR) {
        TransportError::Unreachable(s) => assert_eq!(s, "Tailcat bridge status 20"),
        other => panic!("{other:?}"),
    }
    match transport_error(-3) {
        TransportError::Internal(s) => assert_eq!(s, "Tailcat bridge status -3"),
        other => panic!("{other:?}"),
    }
    assert_eq!(
        transport_error(TC_INTERNAL_ERROR).message(),
        "Internal transport error: Tailcat bridge status 255"
    );
}

#[test]
fn a_short_read_keeps_the_end_of_stream_for_the_next_read() {
    let (now, later) = read_outcome(TC_EOF, 3, 8);
    assert_eq!(now.unwrap(), 3);
    let later = later.unwrap();
    assert!(matches!(later, PendingReadStatus::Eof));
    assert_eq!(pending_read_result(later).unwrap(), 0);

    let (now, later) = read_outcome(TC_NETWORK_ERROR, 2, 8);
    assert_eq!(now.unwrap(), 2);
    assert!(matches!(
        pending_read_result(later.unwrap()),
        Err(TransportError::Unreachable(_))
    ));

    let (now, later) = read_outcome(TC_EOF, 0, 8);
    assert_eq!(now.unwrap(), 0);
    assert!(later.is_none());
    let (now, _) = read_outcome(TC_OK, 9, 8);
    match now {
        Err(TransportError::Internal(s)) => assert_eq!(s, "Tailcat read overrun: 9 > 8"),
        other => panic!("{other:?}"),
    }
    assert!(matches!(read_outcome(TC_TIMEOUT, 0, 8).0, Err(TransportError::Timeout)));
}

#[test]
fn a_failed_write_reports_what_was_written() {
    assert_eq!(write_outcome(TC_OK, 5, 5).unwrap(), 5);
    match write_outcome(TC_TIMEOUT, 2, 5) {
        Err(TransportError::PartialWrite { written, message }) => {
            assert_eq!(written, 2);
            assert_eq!(message, "Connection timed out");
        }
        other => panic!("{other:?}"),
    }
    assert!(matches!(write_outcome(TC_CANCELLED, 0, 5), Err(TransportError::Cancelled)));
    assert!(matches!(write_outcome(TC_OK, 6, 5), Err(TransportError::Internal(_))));
    assert_eq!(write_all_step(3, 2, 10).unwrap(), 5);
    assert!(matches!(write_all_step(3, 0, 10), Err(TransportError::Internal(_))));
}
