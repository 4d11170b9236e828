//! The framing codec, the connection manager, the correlator and an
//! end-to-end session against a simulated two-port controller.

use fanuc_rmi::codec::FrameBuffer;
use fanuc_rmi::commands::FrcInitializeResponse;
use fanuc_rmi::drivers::{
    send_queue_step, ConnAction, ConnError, ConnEvent, ConnState, FanucDriver, FanucDriverConfig,
    ProgramRun,
};
use fanuc_rmi::instructions::FrcLinearRelativeResponse;
use fanuc_rmi::packets::{
    Command, CommandResponse, Communication, CommunicationResponse, FrcConnectResponse,
    FrcDisconnectResponse, Instruction, InstructionResponse,
};
use fanuc_rmi::commands::FrcAbortResponse;
use fanuc_rmi::{Configuration, Dec, PacketEnum, Position, SpeedType, TermType};

fn config() -> FanucDriverConfig {
    FanucDriverConfig::default()
}

// ---------------------------------------------------------------------------
// framing
// ---------------------------------------------------------------------------

#[test]
fn two_concatenated_frames_come_out_in_order() {
    let mut buf = FrameBuffer::new();
    let frames = buf.feed(b"{\"A\":1}\n{\"B\":2}\n");
    assert_eq!(frames.len(), 2);
    assert_eq!(frames[0], b"{\"A\":1}".to_vec());
    assert_eq!(frames[1], b"{\"B\":2}".to_vec());
    assert_eq!(buf.buf, b"".to_vec());
}

#[test]
fn split_frame_completes_only_on_second_read() {
    let mut buf = FrameBuffer::new();
    let frames = buf.feed(b"{\"Communication\":\"FRC_C");
    assert_eq!(frames.len(), 0);
    assert_eq!(buf.buf, b"{\"Communication\":\"FRC_C".to_vec());
    let frames = buf.feed(b"onnect\"}\r\n{\"Tail");
    assert_eq!(frames.len(), 1);
    assert_eq!(frames[0], b"{\"Communication\":\"FRC_Connect\"}".to_vec());
    assert_eq!(buf.buf, b"{\"Tail".to_vec());
}

#[test]
fn carriage_return_is_trimmed_once() {
    let mut buf = FrameBuffer::new();
    let frames = buf.feed(b"abc\r\ndef\nx\r\r\n");
    assert_eq!(frames.len(), 3);
    assert_eq!(frames[0], b"abc".to_vec());
    assert_eq!(frames[1], b"def".to_vec());
    assert_eq!(frames[2], b"x\r".to_vec());
}

#[test]
fn an_encoded_packet_is_one_frame() {
    let mut buf = FrameBuffer::new();
    let wire = Communication::FrcConnect.encode();
    let frames = buf.feed(&wire);
    assert_eq!(frames.len(), 1);
    assert_eq!(Communication::decode(&frames[0]), Ok(Communication::FrcConnect));
    assert_eq!(buf.buf, b"".to_vec());
}

// ---------------------------------------------------------------------------
// connection manager
// ---------------------------------------------------------------------------

fn connect_frame(port: u32) -> Vec<u8> {
    let wire = CommunicationResponse::FrcConnect(FrcConnectResponse {
        error_id: 0,
        port_number: port,
        major_version: 1,
        minor_version: 0,
    })
    .encode();
    wire[..wire.len() - 2].to_vec()
}

#[test]
fn handshake_redirects_to_the_negotiated_port() {
    let mut d = FanucDriver::new(config());
    assert_eq!(d.conn_step(ConnEvent::Start), ConnAction::Dial { port: 16001 });
    assert_eq!(d.conn_step(ConnEvent::DialOk), ConnAction::SendConnect);
    let a = d.conn_step(ConnEvent::Frame(connect_frame(17050)));
    assert_eq!(a, ConnAction::Dial { port: 17050 });
    assert_eq!(d.conn, ConnState::ConnectingSession { port: 17050, attempt: 1 });
    assert_eq!(d.conn_step(ConnEvent::DialOk), ConnAction::Ready);
    assert_eq!(d.conn, ConnState::Connected { port: 17050 });
}

#[test]
fn handshake_without_a_port_fails_rather_than_proceeding() {
    let mut d = FanucDriver::new(config());
    d.conn_step(ConnEvent::Start);
    d.conn_step(ConnEvent::DialOk);
    let wire = CommunicationResponse::FrcDisconnect(FrcDisconnectResponse { error_id: 0 }).encode();
    let a = d.conn_step(ConnEvent::Frame(wire[..wire.len() - 2].to_vec()));
    assert_eq!(a, ConnAction::Fail(ConnError::InvalidHandshake));
    assert_eq!(d.conn, ConnState::Disconnected);
    assert!(matches!(
        ConnError::InvalidHandshake.to_frc_error(),
        fanuc_rmi::FrcError::InvalidHandshake(_)
    ));
}

#[test]
fn garbage_handshake_frame_fails() {
    let mut d = FanucDriver::new(config());
    d.conn_step(ConnEvent::Start);
    d.conn_step(ConnEvent::DialOk);
    let a = d.conn_step(ConnEvent::Frame(b"no port here".to_vec()));
    assert_eq!(a, ConnAction::Fail(ConnError::InvalidHandshake));
}

#[test]
fn three_failures_exhaust_a_retry_count_of_three() {
    let mut d = FanucDriver::new(config());
    assert_eq!(d.config.retries, 3);
    let mut dials = 1;
    assert_eq!(d.conn_step(ConnEvent::Start), ConnAction::Dial { port: 16001 });
    // first and second failures ask for another dial
    for _ in 0..2 {
        let a = d.conn_step(ConnEvent::DialFailed);
        assert_eq!(a, ConnAction::RetryDial { port: 16001, delay_ms: 2000 });
        dials += 1;
    }
    // the third failure gives up: the call fails after exactly 3 attempts
    let a = d.conn_step(ConnEvent::DialFailed);
    assert_eq!(a, ConnAction::Fail(ConnError::RetriesExhausted));
    assert_eq!(d.conn, ConnState::Disconnected);
    assert_eq!(dials, 3);
    // and no fourth attempt is ever asked for
    let a = d.conn_step(ConnEvent::DialFailed);
    assert_eq!(a, ConnAction::Idle);
}

#[test]
fn a_retry_count_of_zero_makes_no_attempt() {
    let mut d = FanucDriver::new(FanucDriverConfig { retries: 0, ..config() });
    // the call fails at once: no dial is ever asked for
    assert_eq!(d.conn_step(ConnEvent::Start), ConnAction::Fail(ConnError::RetriesExhausted));
    assert_eq!(d.conn, ConnState::Disconnected);
}

#[test]
fn success_on_attempt_two_of_three_needs_no_third() {
    let mut d = FanucDriver::new(config());
    d.conn_step(ConnEvent::Start);
    assert_eq!(
        d.conn_step(ConnEvent::DialFailed),
        ConnAction::RetryDial { port: 16001, delay_ms: 2000 }
    );
    // second attempt succeeds: the manager moves on, asking for no dial
    assert_eq!(d.conn_step(ConnEvent::DialOk), ConnAction::SendConnect);
    assert_eq!(d.conn, ConnState::AwaitingRedirect);
}

#[test]
fn eof_disconnects() {
    let mut d = FanucDriver::new(config());
    d.conn_step(ConnEvent::Start);
    d.conn_step(ConnEvent::DialOk);
    assert_eq!(d.conn_step(ConnEvent::Eof), ConnAction::Fail(ConnError::Disconnected));
    assert_eq!(d.conn, ConnState::Disconnected);
}

// ---------------------------------------------------------------------------
// correlator
// ---------------------------------------------------------------------------

fn response_frame(id: u32) -> Vec<u8> {
    let wire = InstructionResponse::FrcLinearRelative(FrcLinearRelativeResponse {
        error_id: 0,
        sequence_id: id,
    })
    .encode();
    wire[..wire.len() - 2].to_vec()
}

#[test]
fn scrambled_responses_settle_every_dispatched_id() {
    let mut run = ProgramRun::new();
    for id in [1, 2, 3] {
        assert!(!run.handle_announcement(id));
    }
    assert_eq!(run.outstanding, vec![1, 2, 3]);
    // responses return in the order 3, 1, 2
    for id in [3, 1, 2] {
        assert_eq!(run.handle_frame(&response_frame(id)), Some(id));
    }
    assert!(run.outstanding.is_empty());
}

#[test]
fn sentinel_zero_always_stops_and_is_never_outstanding() {
    let mut run = ProgramRun::new();
    run.handle_announcement(5);
    let stop = run.handle_announcement(0);
    assert!(stop);
    assert!(run.stopped);
    assert_eq!(run.outstanding, vec![5]);
}

#[test]
fn unparseable_frames_are_skipped_not_fatal() {
    let mut run = ProgramRun::new();
    run.handle_announcement(9);
    assert_eq!(run.handle_frame(b"{{{ mangled"), None);
    assert_eq!(run.outstanding, vec![9]);
    assert!(!run.stopped);
    // the pipeline goes on and still settles the real response
    assert_eq!(run.handle_frame(&response_frame(9)), Some(9));
    assert!(run.outstanding.is_empty());
}

#[test]
fn faulted_responses_are_counted_and_never_stall_the_run() {
    let mut run = ProgramRun::new();
    run.handle_announcement(1);
    run.handle_announcement(2);
    let wire = InstructionResponse::FrcLinearRelative(FrcLinearRelativeResponse {
        error_id: 2556949,
        sequence_id: 1,
    })
    .encode();
    assert_eq!(run.handle_frame(&wire[..wire.len() - 2]), Some(1));
    assert_eq!(run.faults, 1);
    assert!(!run.stopped);
    assert_eq!(run.handle_frame(&response_frame(2)), Some(2));
    assert_eq!(run.faults, 1);
    assert!(run.outstanding.is_empty());
}

#[test]
fn an_acknowledgement_racing_its_announcement_is_not_lost() {
    let mut run = ProgramRun::new();
    // the echo outruns the producer's announcement
    assert_eq!(run.handle_frame(&response_frame(4)), Some(4));
    assert!(run.outstanding.is_empty());
    assert_eq!(run.early, vec![4]);
    // the late announcement is settled by the remembered acknowledgement
    assert!(!run.handle_announcement(4));
    assert!(run.outstanding.is_empty());
    assert!(run.early.is_empty());
}

#[test]
fn eof_stops_the_consumer() {
    let mut run = ProgramRun::new();
    run.handle_announcement(1);
    run.handle_eof();
    assert!(run.stopped);
}

// ---------------------------------------------------------------------------
// facade
// ---------------------------------------------------------------------------

#[test]
fn message_ring_evicts_oldest_first() {
    let mut d = FanucDriver::new(FanucDriverConfig { max_messages: 2, ..config() });
    d.log_message("one".to_string());
    d.log_message("two".to_string());
    d.log_message("three".to_string());
    assert_eq!(d.messages.len(), 2);
    assert_eq!(d.messages[0], "two");
    assert_eq!(d.messages[1], "three");
}

#[test]
fn load_gcode_yields_four_steps_with_ids_one_to_four() {
    let d = FanucDriver::default();
    let queue = d.load_gcode().unwrap();
    assert_eq!(queue.len(), 4);
    for (i, p) in queue.iter().enumerate() {
        match p {
            PacketEnum::Instruction(inst) => {
                assert_eq!(inst.sequence_id(), (i + 1) as u32);
                assert_ne!(inst.sequence_id(), 0);
            },
            other => panic!("not an instruction: {:?}", other),
        }
    }
}

// ---------------------------------------------------------------------------
// end to end, against a simulated two-port controller
// ---------------------------------------------------------------------------

/// The simulated controller: answers the handshake on the first port with
/// a redirect, and echoes sequence identifiers on the second.
struct Sim {
    session_port: u32,
}

impl Sim {
    fn primary_reply(&self, frame: &[u8]) -> Vec<u8> {
        match Communication::decode(frame) {
            Ok(Communication::FrcConnect) => CommunicationResponse::FrcConnect(
                FrcConnectResponse {
                    error_id: 0,
                    port_number: self.session_port,
                    major_version: 1,
                    minor_version: 0,
                },
            )
            .encode(),
            other => panic!("the simulator got a non-connect request: {:?}", other),
        }
    }

    fn session_reply(&self, frame: &[u8]) -> Vec<u8> {
        if let Ok(cmd) = Command::decode(frame) {
            return match cmd {
                Command::FrcInitialize(_) => CommandResponse::FrcInitialize(
                    FrcInitializeResponse { error_id: 0, group_mask: 1 },
                )
                .encode(),
                Command::FrcAbort => {
                    CommandResponse::FrcAbort(FrcAbortResponse { error_id: 0 }).encode()
                },
                other => panic!("the simulator got an unexpected command: {:?}", other),
            };
        }
        if let Ok(inst) = Instruction::decode(frame) {
            return InstructionResponse::FrcLinearRelative(FrcLinearRelativeResponse {
                error_id: 0,
                sequence_id: inst.sequence_id(),
            })
            .encode();
        }
        if let Ok(comm) = Communication::decode(frame) {
            return match comm {
                Communication::FrcDisconnect => CommunicationResponse::FrcDisconnect(
                    FrcDisconnectResponse { error_id: 0 },
                )
                .encode(),
                other => panic!("the simulator got an unexpected packet: {:?}", other),
            };
        }
        panic!("the simulator could not read the frame");
    }
}

fn one_frame(buf: &mut FrameBuffer, wire: &[u8]) -> Vec<u8> {
    let mut frames = buf.feed(wire);
    assert_eq!(frames.len(), 1);
    frames.remove(0)
}

#[test]
fn full_session_against_the_double_port_simulator() {
    let sim = Sim { session_port: 17050 };
    let mut d = FanucDriver::new(config());
    let mut rx = FrameBuffer::new();

    // connect: dial the initialization port, send the connect request,
    // and follow the redirect to the session port
    assert_eq!(d.conn_step(ConnEvent::Start), ConnAction::Dial { port: 16001 });
    assert_eq!(d.conn_step(ConnEvent::DialOk), ConnAction::SendConnect);
    let reply = sim.primary_reply(&one_frame(&mut rx, &d.connect_request()));
    let a = d.conn_step(ConnEvent::Frame(one_frame(&mut rx, &reply)));
    assert_eq!(a, ConnAction::Dial { port: 17050 });
    assert_eq!(d.conn_step(ConnEvent::DialOk), ConnAction::Ready);
    assert_eq!(d.conn, ConnState::Connected { port: 17050 });

    // initialize succeeds with fault code zero
    let reply = sim.session_reply(&one_frame(&mut rx, &d.initialize_request()));
    assert_eq!(d.initialize_response(&one_frame(&mut rx, &reply)), Ok(()));

    // run the four-step program: dispatch in order, acknowledge scrambled
    let mut queue = d.load_gcode().unwrap();
    let mut run = ProgramRun::new();
    let mut replies: Vec<Vec<u8>> = Vec::new();
    while let Some((wire, id)) = send_queue_step(&mut queue) {
        assert_ne!(id, 0);
        run.handle_announcement(id);
        replies.push(sim.session_reply(&one_frame(&mut rx, &wire)));
    }
    assert_eq!(run.outstanding, vec![1, 2, 3, 4]);
    replies.reverse();
    for reply in replies {
        run.handle_frame(&one_frame(&mut rx, &reply));
    }
    assert!(run.outstanding.is_empty());
    assert!(run.handle_announcement(0));
    assert!(run.stopped);

    // abort, then disconnect; both succeed and the session closes
    let reply = sim.session_reply(&one_frame(&mut rx, &d.abort_request()));
    assert_eq!(d.abort_response(&one_frame(&mut rx, &reply)), Ok(()));
    let reply = sim.session_reply(&one_frame(&mut rx, &d.disconnect_request()));
    assert_eq!(d.disconnect_response(&one_frame(&mut rx, &reply)), Ok(()));
    assert_eq!(d.conn, ConnState::Closed);
}

#[test]
fn get_status_exchange_succeeds_on_zero_fault() {
    let mut d = FanucDriver::new(config());
    assert_eq!(
        d.get_status_request(),
        b"{\"Command\":\"FRC_GetStatus\"}\r\n".to_vec()
    );
    let wire = CommandResponse::FrcGetStatus(fanuc_rmi::commands::FrcGetStatusResponse {
        error_id: 0,
        servo_ready: 1,
        tp_mode: 0,
        rmi_motion_status: 0,
        program_status: 0,
        single_step_mode: 0,
        number_utool: 1,
        number_uframe: 1,
    })
    .encode();
    assert_eq!(d.get_status_response(&wire[..wire.len() - 2]), Ok(()));
}

#[test]
fn linear_relative_exchange_checks_the_echoed_fault() {
    let mut d = FanucDriver::new(config());
    let posture = Configuration {
        u_tool_number: 1,
        u_frame_number: 1,
        front: 1,
        up: 1,
        left: 1,
        glip: 1,
        turn4: 1,
        turn5: 1,
        turn6: 1,
    };
    let target = Position {
        x: Dec::whole(false, 30),
        y: Dec::zero(),
        z: Dec::zero(),
        w: Dec::zero(),
        p: Dec::zero(),
        r: Dec::zero(),
        ext1: Dec::zero(),
        ext2: Dec::zero(),
        ext3: Dec::zero(),
    };
    let wire = d.linear_relative_request(9, posture, target, SpeedType::MMSec, 30, TermType::FINE, 1);
    match Instruction::decode(&wire[..wire.len() - 2]).unwrap() {
        Instruction::FrcLinearRelative(p) => assert_eq!(p.sequence_id, 9),
        other => panic!("the request is the wrong instruction: {:?}", other),
    }
    let ok = response_frame(9);
    assert_eq!(d.linear_relative_response(&ok), Ok(()));
    let bad = InstructionResponse::FrcLinearRelative(FrcLinearRelativeResponse {
        error_id: 2556959,
        sequence_id: 9,
    })
    .encode();
    match d.linear_relative_response(&bad[..bad.len() - 2]) {
        Err(fanuc_rmi::FrcError::FanucErrorCode(code)) => {
            assert_eq!(code.message(), "Invalid Speed Value.");
        },
        other => panic!("expected a controller fault, got {:?}", other),
    }
}

#[test]
fn a_zero_capacity_ring_keeps_only_the_newest_message() {
    let mut d = FanucDriver::new(FanucDriverConfig { max_messages: 0, ..config() });
    d.log_message("one".to_string());
    d.log_message("two".to_string());
    assert_eq!(d.messages.len(), 1);
    assert_eq!(d.messages[0], "two");
}

#[test]
fn nonzero_fault_codes_surface_through_the_table() {
    let mut d = FanucDriver::new(config());
    let wire = CommandResponse::FrcInitialize(FrcInitializeResponse {
        error_id: 2556935,
        group_mask: 1,
    })
    .encode();
    let r = d.initialize_response(&wire[..wire.len() - 2]);
    match r {
        Err(fanuc_rmi::FrcError::FanucErrorCode(code)) => {
            assert_eq!(code, fanuc_rmi::FanucErrorCode::ControllerServoOff);
            assert_eq!(code.message(), "Controller Servo is Off.");
        },
        other => panic!("expected a controller fault, got {:?}", other),
    }
}
