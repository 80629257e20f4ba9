use statarb::execution::{
    crossing_price, interpret_response, ExecNote, OrderPayload, OrderStatus, VenueResponse,
};

#[test]
fn crossing_price_offsets_and_rounds() {
    // buy: +100 units; sell: -100 units; rounded to whole units
    assert_eq!(crossing_price(100_000_000, true), 200_000_000);
    assert_eq!(crossing_price(100_000_000, false), 0);
    assert_eq!(crossing_price(50_000_000, false), -50_000_000);
    // 100.4 + 100 rounds down, 100.5 + 100 rounds half away from zero
    assert_eq!(crossing_price(100_400_000, true), 200_000_000);
    assert_eq!(crossing_price(100_500_000, true), 201_000_000);
    assert_eq!(crossing_price(100_499_999, true), 200_000_000);
}

fn accepted(statuses: Vec<OrderStatus>) -> VenueResponse {
    VenueResponse::Accepted(Some(OrderPayload { statuses }))
}

#[test]
fn filled_status_yields_requested_size_and_order_id() {
    let (out, note) = interpret_response(accepted(vec![OrderStatus::Filled(42)]), 1_000);
    assert_eq!(out.filled, 1_000);
    assert_eq!(out.oid, 42);
    assert!(matches!(note, ExecNote::FilledOk));
}

#[test]
fn resting_status_counts_as_no_fill() {
    let (out, note) = interpret_response(accepted(vec![OrderStatus::Resting(7)]), 1_000);
    assert_eq!(out.filled, 0);
    assert_eq!(out.oid, 0);
    assert!(matches!(note, ExecNote::RestingIgnored));
}

#[test]
fn status_error_is_no_fill_with_logged_cause() {
    let (out, note) =
        interpret_response(accepted(vec![OrderStatus::Error(b"boom".to_vec())]), 1_000);
    assert_eq!(out.filled, 0);
    assert_eq!(out.oid, 0);
    match note {
        ExecNote::StatusError(m) => assert_eq!(m, b"boom".to_vec()),
        _ => panic!("expected a status error note"),
    }
}

#[test]
fn unknown_status_is_silently_no_fill() {
    let (out, note) = interpret_response(accepted(vec![OrderStatus::Other]), 1_000);
    assert_eq!(out.filled, 0);
    assert_eq!(out.oid, 0);
    assert!(matches!(note, ExecNote::UnknownStatusIgnored));
}

#[test]
fn only_the_first_status_decides() {
    let (out, _) = interpret_response(
        accepted(vec![OrderStatus::Filled(9), OrderStatus::Error(b"x".to_vec())]),
        500,
    );
    assert_eq!(out.filled, 500);
    assert_eq!(out.oid, 9);
}

#[test]
fn missing_payload_or_empty_statuses_are_anomalous() {
    let (out, note) = interpret_response(VenueResponse::Accepted(None), 1_000);
    assert_eq!((out.filled, out.oid), (0, 0));
    assert!(matches!(note, ExecNote::AnomalousResponse));
    let (out, note) = interpret_response(accepted(vec![]), 1_000);
    assert_eq!((out.filled, out.oid), (0, 0));
    assert!(matches!(note, ExecNote::AnomalousResponse));
}

#[test]
fn venue_rejection_flags_insufficient_margin() {
    let (out, note) = interpret_response(
        VenueResponse::Rejected(b"Insufficient margin to place order".to_vec()),
        1_000,
    );
    assert_eq!((out.filled, out.oid), (0, 0));
    match note {
        ExecNote::VenueRejected { message, margin } => {
            assert!(margin);
            assert_eq!(message, b"Insufficient margin to place order".to_vec());
        },
        _ => panic!("expected a venue rejection note"),
    }
}

#[test]
fn other_rejections_are_not_margin_flagged() {
    let (out, note) = interpret_response(VenueResponse::Rejected(b"order too small".to_vec()), 1_000);
    assert_eq!((out.filled, out.oid), (0, 0));
    match note {
        ExecNote::VenueRejected { margin, .. } => assert!(!margin),
        _ => panic!("expected a venue rejection note"),
    }
}

#[test]
fn transport_failure_is_no_fill_with_logged_cause() {
    let (out, note) =
        interpret_response(VenueResponse::TransportFailed(b"timeout".to_vec()), 1_000);
    assert_eq!((out.filled, out.oid), (0, 0));
    match note {
        ExecNote::TransportError(m) => assert_eq!(m, b"timeout".to_vec()),
        _ => panic!("expected a transport error note"),
    }
}
