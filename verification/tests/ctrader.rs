use tradeos::ctrader::broker::{
    account_outcome, close_outcome, modify_outcome, positions_outcome, spot_tick, submit_outcome, subscribe_frame,
};
use tradeos::ctrader::demux::{Delivery, ReplyDemux};
use tradeos::ctrader::mock::{stream_finished, synthetic_tick, OrderResponder};
use tradeos::ctrader::protocol::{
    decode_frame, decode_prefix, encode_frame, ClientFrame, ClientMessage, ProtocolError, ServerFrame, ServerMessage, WireAccount,
    WirePosition, MAX_FRAME_BYTES, UNSOLICITED_REQ_ID,
};
use tradeos::domain::{
    AccountSnapshot, ExecEvent, OrderIntent, OrderType, PortError, PositionSnapshot, Side, SignalIds, SymbolSpec, Tick,
    TimeInForce, TradingMode,
};

fn sample_intent() -> OrderIntent {
    OrderIntent {
        client_id: 1,
        symbol_id: 7,
        side: Side::Buy,
        qty: 100,
        order_type: OrderType::Market,
        limit_px: None,
        sl: Some(99_000),
        tp: Some(101_000),
        tif: TimeInForce::Gtc,
        mode: TradingMode::Normal,
        max_slippage_pts: 5,
        signal_ids: SignalIds::from_slice(&[9]),
    }
}

fn sample_tick() -> Tick {
    Tick { ts_ns: 1_000, recv_ns: 1_001, symbol_id: 7, bid: 100_000, ask: 100_010, bid_volume: 1, ask_volume: 2, flags: 0 }
}

/// A serialized frame body, as the wire carries it.
const CLIENT_PAYLOAD: &[u8] = br#"{"req_id":42,"message":"PositionsRequest"}"#;
const SERVER_PAYLOAD: &[u8] = br#"{"req_id":0,"message":"AuthAck"}"#;

// ---- framing ----

#[test]
fn client_frame_roundtrips_through_a_byte_stream() {
    let buf = encode_frame(CLIENT_PAYLOAD).unwrap();
    let (payload, used) = decode_frame(&buf).unwrap();
    assert_eq!(payload, CLIENT_PAYLOAD);
    assert_eq!(used, buf.len());
}

#[test]
fn server_frame_roundtrips_through_a_byte_stream() {
    let buf = encode_frame(SERVER_PAYLOAD).unwrap();
    assert_eq!(&buf[..4], &(SERVER_PAYLOAD.len() as u32).to_be_bytes());
    let (payload, _) = decode_frame(&buf).unwrap();
    assert_eq!(payload, SERVER_PAYLOAD);
}

#[test]
fn multiple_frames_are_read_back_in_order_from_the_same_stream() {
    let mut buf = encode_frame(SERVER_PAYLOAD).unwrap();
    buf.extend(encode_frame(CLIENT_PAYLOAD).unwrap());
    let (first, used) = decode_frame(&buf).unwrap();
    let (second, rest) = decode_frame(&buf[used..]).unwrap();
    assert_eq!(first, SERVER_PAYLOAD);
    assert_eq!(second, CLIENT_PAYLOAD);
    assert_eq!(used + rest, buf.len());
    assert_eq!(decode_frame(&buf[used + rest..]), Err(ProtocolError::Truncated));
}

#[test]
fn truncated_frame_is_an_io_error_not_a_panic() {
    let mut buf = encode_frame(CLIENT_PAYLOAD).unwrap();
    buf.truncate(buf.len() - 1);
    assert_eq!(decode_frame(&buf), Err(ProtocolError::Truncated));
}

#[test]
fn a_length_prefix_over_the_ceiling_is_rejected_before_allocating() {
    let mut buf = Vec::new();
    buf.extend_from_slice(&(MAX_FRAME_BYTES as u32 + 1).to_be_bytes());
    assert!(matches!(decode_frame(&buf), Err(ProtocolError::FrameTooLarge(_))));
}

#[test]
fn a_short_prefix_and_an_oversized_payload_are_refused() {
    assert_eq!(decode_frame(&[0, 0, 1]), Err(ProtocolError::Truncated));
    let big = vec![0u8; MAX_FRAME_BYTES + 1];
    assert_eq!(encode_frame(&big), Err(ProtocolError::FrameTooLarge(MAX_FRAME_BYTES + 1)));
    let empty = encode_frame(&[]).unwrap();
    assert_eq!(empty, vec![0, 0, 0, 0]);
    assert_eq!(decode_frame(&empty), Ok((Vec::new(), 4)));
}

#[test]
fn the_length_prefix_is_big_endian_and_capped() {
    assert_eq!(decode_prefix(&[0, 0, 1, 2]), Ok(258));
    assert_eq!(decode_prefix(&[0, 16, 0, 0, 99]), Ok(MAX_FRAME_BYTES));
    assert_eq!(decode_prefix(&[0, 16, 0, 1]), Err(ProtocolError::FrameTooLarge(MAX_FRAME_BYTES + 1)));
    assert_eq!(decode_prefix(&[0, 16]), Err(ProtocolError::Truncated));
}

// ---- broker side ----

#[test]
fn the_subscribe_frame_lists_the_symbol_ids() {
    let frame = subscribe_frame(&[SymbolSpec { symbol_id: 3, price_digits: 5 }, SymbolSpec { symbol_id: 9, price_digits: 2 }]);
    assert_eq!(frame, ClientFrame { req_id: 1, message: ClientMessage::Subscribe { symbols: vec![3, 9] } });
}

#[test]
fn only_spot_frames_feed_the_tick_stream() {
    let spot = ServerFrame { req_id: 0, message: ServerMessage::Spot { symbol_id: 7, tick: sample_tick() } };
    assert_eq!(spot_tick(spot), Some(sample_tick()));
    assert_eq!(spot_tick(ServerFrame { req_id: 1, message: ServerMessage::AuthAck }), None);
}

#[test]
fn replies_map_onto_port_results() {
    assert_eq!(submit_outcome(ServerMessage::OrderAccepted { broker_order_id: 5 }), Ok(5));
    assert_eq!(
        submit_outcome(ServerMessage::OrderRejected { reason: "no".to_string() }),
        Err(PortError::Adapter("no".to_string()))
    );
    match submit_outcome(ServerMessage::AuthAck) {
        Err(PortError::Adapter(m)) => assert!(m.starts_with("unexpected reply to submit: ")),
        other => panic!("expected an adapter error, got {other:?}"),
    }
    assert_eq!(modify_outcome(ServerMessage::Amended { broker_order_id: 5 }), Ok(()));
    assert!(matches!(modify_outcome(ServerMessage::Closed { broker_order_id: 5 }), Err(PortError::Adapter(_))));
    assert_eq!(close_outcome(ServerMessage::Closed { broker_order_id: 5 }), Ok(()));
    assert_eq!(
        close_outcome(ServerMessage::OrderRejected { reason: "unknown order".to_string() }),
        Err(PortError::Adapter("unknown order".to_string()))
    );
}

#[test]
fn account_request_returns_the_servers_snapshot() {
    let acc = WireAccount { equity: 1_000_000, balance: 1_000_000, free_margin: 1_000_000 };
    let snap = account_outcome(Some(ServerMessage::Account(acc)));
    assert_eq!(snap.equity, 1_000_000);
    assert_eq!(snap.free_margin, 1_000_000);
    assert_eq!(account_outcome(None), AccountSnapshot::default());
    assert_eq!(account_outcome(Some(ServerMessage::AuthAck)), AccountSnapshot::default());
}

#[test]
fn positions_reply_lists_every_position() {
    let list = vec![
        WirePosition { broker_order_id: 1, symbol_id: 7, qty: 100, avg_price: 100_000 },
        WirePosition { broker_order_id: 2, symbol_id: 8, qty: 5, avg_price: 9 },
    ];
    assert_eq!(
        positions_outcome(ServerMessage::Positions(list)),
        Ok(vec![
            PositionSnapshot { broker_order_id: 1, symbol_id: 7, qty: 100, avg_price: 100_000 },
            PositionSnapshot { broker_order_id: 2, symbol_id: 8, qty: 5, avg_price: 9 },
        ])
    );
    assert!(positions_outcome(ServerMessage::AuthAck).is_err());
}

// ---- request/reply demultiplexing ----

#[test]
fn replies_reach_the_request_with_their_req_id_once() {
    let mut demux: ReplyDemux<&str> = ReplyDemux::new();
    assert_eq!(demux.register("first"), Some(1));
    assert_eq!(demux.register("second"), Some(2));
    match demux.route(ServerFrame { req_id: 2, message: ServerMessage::Amended { broker_order_id: 4 } }) {
        Delivery::Reply(waiter, ServerMessage::Amended { broker_order_id: 4 }) => assert_eq!(waiter, "second"),
        _ => panic!("expected the reply to the second request"),
    }
    assert!(matches!(
        demux.route(ServerFrame { req_id: 2, message: ServerMessage::AuthAck }),
        Delivery::Dropped
    ));
    assert!(matches!(demux.route(ServerFrame { req_id: 1, message: ServerMessage::AuthAck }), Delivery::Reply("first", _)));
}

#[test]
fn unsolicited_execution_reports_become_events() {
    let mut demux: ReplyDemux<u8> = ReplyDemux::new();
    assert_eq!(demux.register(1), Some(1));
    let fill = ExecEvent::Fill { client_id: 1, broker_order_id: 1, fill_price: 100_000, qty: 100, ts_ns: 0 };
    match demux.route(ServerFrame { req_id: UNSOLICITED_REQ_ID, message: ServerMessage::Execution(fill.clone()) }) {
        Delivery::Event(e) => assert_eq!(e, fill),
        _ => panic!("expected an event"),
    }
    assert!(matches!(demux.route(ServerFrame { req_id: 0, message: ServerMessage::AuthAck }), Delivery::Dropped));
    assert_eq!(demux.cancel(1), Some(1));
    assert_eq!(demux.cancel(1), None);
    assert_eq!(demux.register(2), Some(2));
}

// ---- server test double ----

#[test]
fn synthetic_walk_is_deterministic_and_bounded() {
    let a = synthetic_tick(1, 17);
    let b = synthetic_tick(1, 17);
    assert_eq!(a, b);
    for seq in 0..200 {
        let t = synthetic_tick(1, seq);
        assert!(t.bid >= 50_000 && t.bid < 50_300);
        assert!(t.ask > t.bid);
    }
}

#[test]
fn the_sawtooth_restarts_every_thirty_ticks() {
    assert_eq!(synthetic_tick(3, 0).bid, 50_000);
    assert_eq!(synthetic_tick(3, 29).bid, 50_290);
    assert_eq!(synthetic_tick(3, 30).bid, 50_000);
    let t = synthetic_tick(3, 7);
    assert_eq!((t.ts_ns, t.ask, t.bid_volume, t.ask_volume, t.symbol_id), (7_000_000, 50_078, 4, 2, 3));
    assert!(stream_finished(5, Some(5)));
    assert!(!stream_finished(4, Some(5)));
    assert!(!stream_finished(u64::MAX, None));
}

#[test]
fn submit_is_accepted_then_a_fill_arrives_asynchronously() {
    let mut server = OrderResponder::new();
    let replies = server.handle(ClientFrame { req_id: 5, message: ClientMessage::NewOrder(sample_intent()) });
    assert_eq!(replies.len(), 2);
    assert_eq!(replies[0], ServerFrame { req_id: 5, message: ServerMessage::OrderAccepted { broker_order_id: 1 } });
    assert_eq!(
        replies[1],
        ServerFrame {
            req_id: UNSOLICITED_REQ_ID,
            message: ServerMessage::Execution(ExecEvent::Fill {
                client_id: 1,
                broker_order_id: 1,
                fill_price: 100_000,
                qty: 100,
                ts_ns: 0
            })
        }
    );
}

#[test]
fn amending_an_unknown_order_is_rejected() {
    let mut server = OrderResponder::new();
    server.handle(ClientFrame { req_id: 1, message: ClientMessage::NewOrder(sample_intent()) });
    let replies =
        server.handle(ClientFrame { req_id: 2, message: ClientMessage::AmendOrder { broker_order_id: 999, sl: None, tp: None } });
    assert!(modify_outcome(replies[0].message.clone()).is_err());
    assert_eq!(replies[0].message, ServerMessage::OrderRejected { reason: "unknown order".to_string() });
}

#[test]
fn full_submit_amend_positions_close_roundtrip() {
    let mut server = OrderResponder::new();
    let mut intent = sample_intent();
    intent.limit_px = Some(100_500);
    let replies = server.handle(ClientFrame { req_id: 1, message: ClientMessage::NewOrder(intent) });
    let id = submit_outcome(replies[0].message.clone()).unwrap();
    let amend = server.handle(ClientFrame {
        req_id: 2,
        message: ClientMessage::AmendOrder { broker_order_id: id, sl: Some(98_000), tp: Some(102_000) },
    });
    assert!(modify_outcome(amend[0].message.clone()).is_ok(), "amend should succeed for a known order");
    let listed = server.handle(ClientFrame { req_id: 3, message: ClientMessage::PositionsRequest });
    let positions = positions_outcome(listed[0].message.clone()).expect("positions request should succeed");
    assert_eq!(positions, vec![PositionSnapshot { broker_order_id: id, symbol_id: 7, qty: 100, avg_price: 100_500 }]);
    let partial = server.handle(ClientFrame { req_id: 4, message: ClientMessage::ClosePosition { broker_order_id: id, qty: Some(40) } });
    assert!(close_outcome(partial[0].message.clone()).is_ok());
    let listed = server.handle(ClientFrame { req_id: 5, message: ClientMessage::PositionsRequest });
    assert_eq!(listed[0].message, ServerMessage::Positions(vec![WirePosition { broker_order_id: id, symbol_id: 7, qty: 60, avg_price: 100_500 }]));
    let closed = server.handle(ClientFrame { req_id: 6, message: ClientMessage::ClosePosition { broker_order_id: id, qty: None } });
    assert!(close_outcome(closed[0].message.clone()).is_ok(), "close should succeed for a known order");
    let listed = server.handle(ClientFrame { req_id: 7, message: ClientMessage::PositionsRequest });
    assert_eq!(listed[0].message, ServerMessage::Positions(Vec::new()));
    let again = server.handle(ClientFrame { req_id: 8, message: ClientMessage::ClosePosition { broker_order_id: id, qty: None } });
    assert_eq!(again[0].message, ServerMessage::OrderRejected { reason: "unknown order".to_string() });
}

#[test]
fn account_requests_and_stray_subscriptions() {
    let mut server = OrderResponder::new();
    let replies = server.handle(ClientFrame { req_id: 9, message: ClientMessage::AccountRequest });
    assert_eq!(
        replies,
        vec![ServerFrame {
            req_id: 9,
            message: ServerMessage::Account(WireAccount { equity: 1_000_000, balance: 1_000_000, free_margin: 1_000_000 })
        }]
    );
    assert!(server.handle(ClientFrame { req_id: 10, message: ClientMessage::Subscribe { symbols: vec![1] } }).is_empty());
}

#[test]
fn a_close_whose_remainder_overflows_cannot_be_served() {
    let mut server = OrderResponder::new();
    let open = ClientFrame { req_id: 1, message: ClientMessage::NewOrder(sample_intent()) };
    assert!(server.can_serve(&open));
    server.handle(open);
    let wild = ClientFrame { req_id: 2, message: ClientMessage::ClosePosition { broker_order_id: 1, qty: Some(i64::MIN) } };
    assert!(!server.can_serve(&wild));
    let fine = ClientFrame { req_id: 3, message: ClientMessage::ClosePosition { broker_order_id: 1, qty: Some(-5) } };
    assert!(server.can_serve(&fine));
    let unknown = ClientFrame { req_id: 4, message: ClientMessage::ClosePosition { broker_order_id: 9, qty: Some(i64::MIN) } };
    assert!(server.can_serve(&unknown));
}

#[test]
fn a_stream_of_frames_feeds_only_its_spot_ticks_in_order() {
    let mut second = sample_tick();
    second.bid += 5;
    let frames = vec![
        ServerFrame { req_id: 0, message: ServerMessage::AuthAck },
        ServerFrame { req_id: 0, message: ServerMessage::Spot { symbol_id: 1, tick: sample_tick() } },
        ServerFrame { req_id: 3, message: ServerMessage::Closed { broker_order_id: 2 } },
        ServerFrame { req_id: 0, message: ServerMessage::Spot { symbol_id: 1, tick: second } },
    ];
    let ticks: Vec<Tick> = frames.into_iter().filter_map(spot_tick).collect();
    assert_eq!(ticks, vec![sample_tick(), second]);
}
