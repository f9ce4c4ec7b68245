use spdm_demo::capabilities::create_spdm_caps;
use spdm_demo::cert_chain::cert_chain_len;
use spdm_demo::requester::{
    failure_message, provisioned_slots, resume, start, Action, AlgorithmTables, Event,
    MeasurementSummaryHashType, Phase, Request, Stage, State, Step,
};
use spdm_demo::server::server_loop_delay;
use spdm_demo::{requester, responder, server};

fn answered<'a>(step: Step<&'a [u8]>, stage: Stage, reset: bool) -> Step<&'a [u8]> {
    assert_eq!(step.state, State::Generating(stage));
    let step = resume(step.state, Event::Generated(true));
    assert_eq!(step.action, Action::Send { eid: 10 });
    let step = resume(step.state, Event::Sent(true));
    assert_eq!(step.action, Action::Process { reset });
    resume(step.state, Event::Processed(true))
}

fn certificate<'a>() -> Action<&'a [u8]> {
    Action::Generate(Request::Certificate {
        slot: 0,
        offset: 0,
        length: 0x200,
        slot_size_requested: false,
    })
}

#[test]
fn whole_flow_with_a_chain_of_three_portions() {
    let step = start();
    assert_eq!(
        step.action,
        Action::Generate(Request::Version { param1: 0, param2: 0 })
    );
    let step = answered(step, Stage::Version, true);
    assert_eq!(step.action, Action::Generate(Request::Capabilities));
    let step = answered(step, Stage::Capabilities, true);
    assert_eq!(
        step.action,
        Action::Generate(Request::Algorithms {
            tables: AlgorithmTables { first: false, second: false, third: false, fourth: false }
        })
    );
    let step = answered(step, Stage::Algorithms, true);
    assert_eq!(step.action, Action::Generate(Request::Digests));
    let step = answered(step, Stage::Digests, true);
    assert_eq!(step.action, Action::ReportDigests);
    let mut step = resume(step.state, Event::Reported);
    for during_certificate in [true, true, false] {
        assert_eq!(step.action, certificate());
        step = answered(step, Stage::Certificate, false);
        assert_eq!(step.action, Action::ReadConnection);
        step = resume(step.state, Event::Connection { during_certificate });
    }
    assert_eq!(step.action, Action::ReportRootHashes);
    let step = resume(step.state, Event::Reported);
    assert_eq!(step.action, Action::DrawNonce);
    let nonce = [0xa5u8; 32];
    let step = resume(step.state, Event::Nonce(Some(&nonce)));
    assert_eq!(
        step.action,
        Action::Generate(Request::Challenge {
            slot: 0,
            summary: MeasurementSummaryHashType::All,
            nonce: &[0xa5; 32][..],
            context: None
        })
    );
    let step = answered(step, Stage::Challenge, true);
    assert_eq!(step.action, Action::Wait { millis: 120000 });
    let step = resume(step.state, Event::Waited);
    assert_eq!(step.action, Action::Wait { millis: 120000 });
}

#[test]
fn each_failure_ends_the_flow() {
    for stage in [
        Stage::Version,
        Stage::Capabilities,
        Stage::Algorithms,
        Stage::Digests,
        Stage::Certificate,
        Stage::Challenge,
    ] {
        let step = resume(State::Generating(stage), Event::Generated(false));
        assert_eq!(step.action, Action::Fail { stage, phase: Phase::Generate });
        let step = resume(State::Sending(stage), Event::Sent(false));
        assert_eq!(step.action, Action::Fail { stage, phase: Phase::Send });
        let step = resume(State::Processing(stage), Event::Processed(false));
        assert_eq!(step.action, Action::Fail { stage, phase: Phase::Process });
        assert_eq!(step.state, State::Failed { stage, phase: Phase::Process });
    }
    let step = resume(State::DrawingNonce, Event::Nonce(None));
    assert_eq!(
        step.action,
        Action::Fail { stage: Stage::Challenge, phase: Phase::Nonce }
    );
}

#[test]
fn failures_have_their_words() {
    let words = [
        (Stage::Version, Phase::Generate, "Failed to generate GET_VERSION request"),
        (Stage::Version, Phase::Send, "Failed to send GET_VERSION request"),
        (Stage::Version, Phase::Process, "Failed to process VERSION response"),
        (Stage::Capabilities, Phase::Generate, "Failed to generate GET_CAPABILITIES request"),
        (Stage::Capabilities, Phase::Send, "Failed to send GET_CAPABILITIES request"),
        (Stage::Capabilities, Phase::Process, "Failed to process CAPABILITIES response"),
        (Stage::Algorithms, Phase::Generate, "Failed to generate NEGOTIATE_ALGORITHMS request"),
        (Stage::Algorithms, Phase::Send, "Failed to send NEGOTIATE_ALGORITHMS request"),
        (Stage::Algorithms, Phase::Process, "Failed to process ALGORITHMS response"),
        (Stage::Digests, Phase::Generate, "Failed to generate GET_DIGESTS request"),
        (Stage::Digests, Phase::Send, "Failed to send GET_DIGESTS request"),
        (Stage::Digests, Phase::Process, "Failed to process DIGESTS response"),
    ];
    for (stage, phase, expected) in words {
        assert_eq!(failure_message(stage, phase), Some(expected));
    }
    assert_eq!(failure_message(Stage::Certificate, Phase::Generate), None);
    assert_eq!(failure_message(Stage::Challenge, Phase::Nonce), None);
}

#[test]
fn slots_come_out_of_the_mask_in_order() {
    let list = provisioned_slots(0b1010_0001);
    assert_eq!(&list.slots[..list.len], &[0, 5, 7]);
    assert_eq!(provisioned_slots(0).len, 0);
    let list = provisioned_slots(0xff);
    assert_eq!(&list.slots[..list.len], &[0, 1, 2, 3, 4, 5, 6, 7]);
}

#[test]
fn responder_goes_on_after_every_request() {
    assert_eq!(responder::start(), responder::Action::Process);
    for processed in [true, false] {
        assert_eq!(
            responder::resume(responder::Event::Processed(processed)),
            responder::Action::Report { processed }
        );
        assert_eq!(
            responder::resume(responder::Event::Reported),
            responder::Action::Process
        );
    }
}

#[test]
fn roles_address_each_other() {
    assert_eq!(requester::OWN_I2C_ADDR, 0x2a);
    assert_eq!(responder::OWN_I2C_ADDR, 0x2b);
    assert_eq!(requester::REMOTE_I2C_ADDR, responder::OWN_I2C_ADDR);
    assert_eq!(responder::REMOTE_I2C_ADDR, requester::OWN_I2C_ADDR);
    assert_eq!(requester::RESPONDER_EID, responder::OWN_EID);
    assert_eq!(requester::OWN_EID, 11);
}

#[test]
fn capabilities_are_those_of_the_demo() {
    let caps = create_spdm_caps();
    assert_eq!(caps.ct_exponent, 0);
    assert_eq!(caps.flags.cert_cap, 1);
    assert_eq!(caps.flags.chal_cap, 1);
    assert_eq!(caps.flags.meas_cap, 2);
    assert_eq!(caps.flags.meas_fresh_cap, 1);
    assert_eq!(caps.flags.chunk_cap, 1);
    assert_eq!(caps.data_transfer_size, 1024);
    assert_eq!(caps.max_spdm_msg_size, 4096);
    assert!(caps.include_supported_algorithms);
}

#[test]
fn delay_keeps_the_low_bits() {
    assert_eq!(server_loop_delay(0), 0);
    assert_eq!(server_loop_delay(100), 100);
    assert_eq!(server_loop_delay(0xffff_ffff), 0xffff_ffff);
    assert_eq!(server_loop_delay(0x1_0000_0005), 5);
}

#[test]
fn router_task_alternates_updates_and_sleeps() {
    let mut action = server::start();
    for (sleep, millis) in [(100u64, 100u32), (0x2_0000_0007, 7), (0, 0)] {
        assert_eq!(action, server::Action::Update);
        action = server::resume(server::Event::Updated(Some(sleep)));
        assert_eq!(action, server::Action::Sleep { millis });
        action = server::resume(server::Event::Slept);
    }
    assert_eq!(action, server::Action::Update);
    assert_eq!(
        server::resume(server::Event::Updated(None)),
        server::Action::Fail
    );
}

#[test]
fn chain_length_is_the_sum_of_its_certificates() {
    assert_eq!(cert_chain_len(&[1, 2, 3], &[4], &[5, 6]), 6);
    assert_eq!(cert_chain_len(&[], &[], &[]), 0);
}
