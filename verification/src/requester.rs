//! The SPDM requester: which request follows which, and when to give up.
//!
//! The flow negotiates the connection (version, capabilities, algorithms), fetches the
//! responder's certificate digests and its certificate chain, and challenges it.
//! [`start`] names the first [`Action`]; the outcome of an action is an [`Event`], which
//! [`resume`] turns into the next action.
use vstd::prelude::*;

verus! {

/// The requester's own I2C address.
pub const OWN_I2C_ADDR: u8 = 0x2a;

/// The I2C address of the responder.
pub const REMOTE_I2C_ADDR: u8 = 0x2b;

/// The requester's own MCTP endpoint.
pub const OWN_EID: u8 = 11;

/// The MCTP endpoint of the responder.
pub const RESPONDER_EID: u8 = 10;

/// The certificate slot that is read and challenged.
pub const SLOT: u8 = 0;

/// How much of a certificate chain is asked for at a time.
pub const CERTIFICATE_PORTION: u16 = 0x200;

/// How long the requester sleeps at a time once it is done.
pub const IDLE_MILLIS: u64 = 120000;

/// The SPDM requests of the flow, in their order.
#[derive(Clone, Copy, Debug, PartialEq, Eq, Structural)]
pub enum Stage {
    Version,
    Capabilities,
    Algorithms,
    Digests,
    Certificate,
    Challenge,
}

/// What can go wrong in a stage.
#[derive(Clone, Copy, Debug, PartialEq, Eq, Structural)]
pub enum Phase {
    /// The nonce of a challenge could not be drawn.
    Nonce,
    /// The request could not be generated.
    Generate,
    /// The request could not be sent.
    Send,
    /// The response could not be received or was not accepted.
    Process,
}

/// Which measurements a challenge wants a summary hash of.
#[derive(Clone, Copy, Debug, PartialEq, Eq, Structural)]
pub enum MeasurementSummaryHashType {
    NoMeasurements,
    Tcb,
    All,
}

/// Which of the four optional algorithm tables of a negotiation are given, in the order in
/// which the SPDM stack takes them.
#[derive(Clone, Copy, Debug, PartialEq, Eq, Structural)]
pub struct AlgorithmTables {
    pub first: bool,
    pub second: bool,
    pub third: bool,
    pub fourth: bool,
}

/// A request with its parameters. `P` is how bytes are held.
#[derive(Debug, PartialEq, Eq)]
pub enum Request<P> {
    Version { param1: u8, param2: u8 },
    Capabilities,
    /// Offers the local algorithms, and optional tables.
    Algorithms { tables: AlgorithmTables },
    Digests,
    Certificate { slot: u8, offset: u16, length: u16, slot_size_requested: bool },
    Challenge {
        slot: u8,
        summary: MeasurementSummaryHashType,
        nonce: P,
        /// The requester's context.
        context: Option<P>,
    },
}

/// What the firmware is to do next. `P` is how bytes are held.
#[derive(Debug, PartialEq, Eq)]
pub enum Action<P> {
    /// Reset the message buffer and generate a request in it.
    Generate(Request<P>),
    /// Send the request to an endpoint.
    Send { eid: u8 },
    /// Receive the response and process it, in a buffer that is reset first if `reset`.
    Process { reset: bool },
    /// Report the digest of each slot that is provisioned.
    ReportDigests,
    /// See whether the certificate chain is still incomplete.
    ReadConnection,
    /// Report the root certificate hash of each slot that is provisioned.
    ReportRootHashes,
    /// Draw random bytes for a challenge.
    DrawNonce,
    /// Sleep; there is nothing left to do.
    Wait { millis: u64 },
    /// Give up.
    Fail { stage: Stage, phase: Phase },
}

/// What came of an [`Action`]. `P` is how bytes are held.
#[derive(Debug, PartialEq, Eq)]
pub enum Event<P> {
    /// Whether the request was generated.
    Generated(bool),
    /// Whether the request was sent.
    Sent(bool),
    /// Whether the response was received and accepted.
    Processed(bool),
    /// The digests or the root certificate hashes were reported.
    Reported,
    /// Whether the connection is still in the middle of a certificate chain.
    Connection { during_certificate: bool },
    /// The random bytes, or `None` if there are none.
    Nonce(Option<P>),
    /// The sleep is over.
    Waited,
}

/// Which action the flow is waiting for.
#[derive(Clone, Copy, Debug, PartialEq, Eq, Structural)]
pub enum State {
    Generating(Stage),
    Sending(Stage),
    Processing(Stage),
    ReportingDigests,
    ReadingConnection,
    ReportingRootHashes,
    DrawingNonce,
    Waiting,
    Failed { stage: Stage, phase: Phase },
}

/// The flow between two events.
#[derive(Debug, PartialEq, Eq)]
pub struct Step<P> {
    pub state: State,
    pub action: Action<P>,
}

/// Optional bytes as a sequence.
pub open spec fn optional(bytes: Option<&[u8]>) -> Option<Seq<u8>> {
    match bytes {
        Some(bytes) => Some(bytes@),
        None => None,
    }
}

impl<'a> View for Request<&'a [u8]> {
    type V = Request<Seq<u8>>;

    open spec fn view(&self) -> Request<Seq<u8>> {
        match *self {
            Request::Version { param1, param2 } => Request::Version { param1, param2 },
            Request::Capabilities => Request::Capabilities,
            Request::Algorithms { tables } => Request::Algorithms { tables },
            Request::Digests => Request::Digests,
            Request::Certificate { slot, offset, length, slot_size_requested } => {
                Request::Certificate { slot, offset, length, slot_size_requested }
            },
            Request::Challenge { slot, summary, nonce, context } => Request::Challenge {
                slot,
                summary,
                nonce: nonce@,
                context: optional(context),
            },
        }
    }
}

impl<'a> View for Action<&'a [u8]> {
    type V = Action<Seq<u8>>;

    open spec fn view(&self) -> Action<Seq<u8>> {
        match *self {
            Action::Generate(request) => Action::Generate(request@),
            Action::Send { eid } => Action::Send { eid },
            Action::Process { reset } => Action::Process { reset },
            Action::ReportDigests => Action::ReportDigests,
            Action::ReadConnection => Action::ReadConnection,
            Action::ReportRootHashes => Action::ReportRootHashes,
            Action::DrawNonce => Action::DrawNonce,
            Action::Wait { millis } => Action::Wait { millis },
            Action::Fail { stage, phase } => Action::Fail { stage, phase },
        }
    }
}

impl<'a> View for Event<&'a [u8]> {
    type V = Event<Seq<u8>>;

    open spec fn view(&self) -> Event<Seq<u8>> {
        match *self {
            Event::Generated(ok) => Event::Generated(ok),
            Event::Sent(ok) => Event::Sent(ok),
            Event::Processed(ok) => Event::Processed(ok),
            Event::Reported => Event::Reported,
            Event::Connection { during_certificate } => Event::Connection { during_certificate },
            Event::Nonce(Some(nonce)) => Event::Nonce(Some(nonce@)),
            Event::Nonce(None) => Event::Nonce(None),
            Event::Waited => Event::Waited,
        }
    }
}

impl<'a> View for Step<&'a [u8]> {
    type V = Step<Seq<u8>>;

    open spec fn view(&self) -> Step<Seq<u8>> {
        Step { state: self.state, action: self.action@ }
    }
}

/// Whether `event` is an outcome of the action that `state` waits for.
pub open spec fn answers(state: State, event: Event<Seq<u8>>) -> bool {
    match state {
        State::Generating(_) => event is Generated,
        State::Sending(_) => event is Sent,
        State::Processing(_) => event is Processed,
        State::ReportingDigests | State::ReportingRootHashes => event is Reported,
        State::ReadingConnection => event is Connection,
        State::DrawingNonce => event is Nonce,
        State::Waiting => event is Waited,
        State::Failed { .. } => false,
    }
}

/// The flow at the start of a stage that generates `request`.
pub open spec fn asking(stage: Stage, request: Request<Seq<u8>>) -> Step<Seq<u8>> {
    Step { state: State::Generating(stage), action: Action::Generate(request) }
}

/// The flow when it asks for the first portion of the certificate chain, or goes on with
/// a chain that is incomplete.
pub open spec fn asking_certificate() -> Step<Seq<u8>> {
    asking(
        Stage::Certificate,
        Request::Certificate {
            slot: SLOT,
            offset: 0,
            length: CERTIFICATE_PORTION,
            slot_size_requested: false,
        },
    )
}

/// The flow when it starts.
pub open spec fn first() -> Step<Seq<u8>> {
    asking(Stage::Version, Request::Version { param1: 0, param2: 0 })
}

/// The flow when it gives up.
pub open spec fn failing(stage: Stage, phase: Phase) -> Step<Seq<u8>> {
    Step { state: State::Failed { stage, phase }, action: Action::Fail { stage, phase } }
}

/// The flow once it has nothing left to do.
pub open spec fn waiting() -> Step<Seq<u8>> {
    Step { state: State::Waiting, action: Action::Wait { millis: IDLE_MILLIS } }
}

/// The flow once the response of a stage was accepted.
pub open spec fn accepted(stage: Stage) -> Step<Seq<u8>> {
    match stage {
        Stage::Version => asking(Stage::Capabilities, Request::Capabilities),
        Stage::Capabilities => asking(
            Stage::Algorithms,
            Request::Algorithms {
                tables: AlgorithmTables { first: false, second: false, third: false, fourth: false },
            },
        ),
        Stage::Algorithms => asking(Stage::Digests, Request::Digests),
        Stage::Digests => Step { state: State::ReportingDigests, action: Action::ReportDigests },
        Stage::Certificate => Step {
            state: State::ReadingConnection,
            action: Action::ReadConnection,
        },
        Stage::Challenge => waiting(),
    }
}

/// The flow after `event`.
pub open spec fn next(state: State, event: Event<Seq<u8>>) -> Step<Seq<u8>> {
    match (state, event) {
        (State::Generating(stage), Event::Generated(true)) => Step {
            state: State::Sending(stage),
            action: Action::Send { eid: RESPONDER_EID },
        },
        (State::Generating(stage), _) => failing(stage, Phase::Generate),
        (State::Sending(stage), Event::Sent(true)) => Step {
            state: State::Processing(stage),
            action: Action::Process { reset: stage != Stage::Certificate },
        },
        (State::Sending(stage), _) => failing(stage, Phase::Send),
        (State::Processing(stage), Event::Processed(true)) => accepted(stage),
        (State::Processing(stage), _) => failing(stage, Phase::Process),
        (State::ReportingDigests, _) => asking_certificate(),
        (State::ReadingConnection, Event::Connection { during_certificate: true }) => {
            asking_certificate()
        },
        (State::ReadingConnection, _) => Step {
            state: State::ReportingRootHashes,
            action: Action::ReportRootHashes,
        },
        (State::ReportingRootHashes, _) => Step {
            state: State::DrawingNonce,
            action: Action::DrawNonce,
        },
        (State::DrawingNonce, Event::Nonce(Some(nonce))) => asking(
            Stage::Challenge,
            Request::Challenge {
                slot: SLOT,
                summary: MeasurementSummaryHashType::All,
                nonce,
                context: None,
            },
        ),
        (State::DrawingNonce, _) => failing(Stage::Challenge, Phase::Nonce),
        (State::Waiting, _) => waiting(),
        (State::Failed { stage, phase }, _) => failing(stage, phase),
    }
}

/// Starts the flow.
pub fn start<'a>() -> (step: Step<&'a [u8]>)
    ensures
        step@ == first(),
        step.state == State::Generating(Stage::Version),
        step.action matches Action::Generate(Request::Version { param1, param2 }) && param1 == 0
            && param2 == 0,
{
    ask(Stage::Version, Request::Version { param1: 0, param2: 0 })
}

/// Goes on with the flow, given what came of the action that it waits for.
pub fn resume<'a>(state: State, event: Event<&'a [u8]>) -> (step: Step<&'a [u8]>)
    requires
        answers(state, event@),
    ensures
        step@ == next(state, event@),
        step.action matches Action::Send { eid } ==> eid == 10,
        step.action matches Action::Wait { millis } ==> millis == 120000,
        event matches Event::Nonce(Some(drawn)) ==> {
            &&& step.action matches Action::Generate(
                Request::Challenge { slot, summary, nonce, context },
            )
            &&& slot == 0
            &&& summary == MeasurementSummaryHashType::All
            &&& nonce@ == drawn@
            &&& context is None
        },
{
    match (state, event) {
        (State::Generating(stage), Event::Generated(ok)) => if ok {
            Step { state: State::Sending(stage), action: Action::Send { eid: RESPONDER_EID } }
        } else {
            fail(stage, Phase::Generate)
        },
        (State::Sending(stage), Event::Sent(ok)) => if ok {
            let reset: bool = match stage {
                Stage::Certificate => false,
                _ => true,
            };
            Step { state: State::Processing(stage), action: Action::Process { reset } }
        } else {
            fail(stage, Phase::Send)
        },
        (State::Processing(stage), Event::Processed(ok)) => if ok {
            accept(stage)
        } else {
            fail(stage, Phase::Process)
        },
        (State::ReportingDigests, Event::Reported) => ask_certificate(),
        (State::ReadingConnection, Event::Connection { during_certificate }) => {
            if during_certificate {
                ask_certificate()
            } else {
                Step { state: State::ReportingRootHashes, action: Action::ReportRootHashes }
            }
        },
        (State::ReportingRootHashes, Event::Reported) => Step {
            state: State::DrawingNonce,
            action: Action::DrawNonce,
        },
        (State::DrawingNonce, Event::Nonce(nonce)) => match nonce {
            Some(nonce) => ask(
                Stage::Challenge,
                Request::Challenge {
                    slot: SLOT,
                    summary: MeasurementSummaryHashType::All,
                    nonce,
                    context: None,
                },
            ),
            None => fail(Stage::Challenge, Phase::Nonce),
        },
        (State::Waiting, Event::Waited) => wait(),
        _ => unreached(),
    }
}

/// Goes on once the response of a stage was accepted.
fn accept<'a>(stage: Stage) -> (step: Step<&'a [u8]>)
    ensures
        step@ == accepted(stage),
{
    match stage {
        Stage::Version => ask(Stage::Capabilities, Request::Capabilities),
        Stage::Capabilities => ask(
            Stage::Algorithms,
            Request::Algorithms {
                tables: AlgorithmTables { first: false, second: false, third: false, fourth: false },
            },
        ),
        Stage::Algorithms => ask(Stage::Digests, Request::Digests),
        Stage::Digests => Step { state: State::ReportingDigests, action: Action::ReportDigests },
        Stage::Certificate => Step {
            state: State::ReadingConnection,
            action: Action::ReadConnection,
        },
        Stage::Challenge => wait(),
    }
}

/// Starts a stage.
fn ask<'a>(stage: Stage, request: Request<&'a [u8]>) -> (step: Step<&'a [u8]>)
    ensures
        step@ == asking(stage, request@),
{
    Step { state: State::Generating(stage), action: Action::Generate(request) }
}

/// Asks for a portion of the certificate chain.
fn ask_certificate<'a>() -> (step: Step<&'a [u8]>)
    ensures
        step@ == asking_certificate(),
{
    ask(
        Stage::Certificate,
        Request::Certificate {
            slot: SLOT,
            offset: 0,
            length: CERTIFICATE_PORTION,
            slot_size_requested: false,
        },
    )
}

/// Gives up.
fn fail<'a>(stage: Stage, phase: Phase) -> (step: Step<&'a [u8]>)
    ensures
        step@ == failing(stage, phase),
{
    Step { state: State::Failed { stage, phase }, action: Action::Fail { stage, phase } }
}

/// Sleeps.
fn wait<'a>() -> (step: Step<&'a [u8]>)
    ensures
        step@ == waiting(),
{
    Step { state: State::Waiting, action: Action::Wait { millis: IDLE_MILLIS } }
}

/// What is said when a stage of the connection negotiation or the digests fails. The
/// later stages have no words of their own.
pub open spec fn spec_failure_message(stage: Stage, phase: Phase) -> Option<Seq<char>> {
    match (stage, phase) {
        (Stage::Version, Phase::Generate) => Some("Failed to generate GET_VERSION request"@),
        (Stage::Version, Phase::Send) => Some("Failed to send GET_VERSION request"@),
        (Stage::Version, Phase::Process) => Some("Failed to process VERSION response"@),
        (Stage::Capabilities, Phase::Generate) => Some(
            "Failed to generate GET_CAPABILITIES request"@,
        ),
        (Stage::Capabilities, Phase::Send) => Some("Failed to send GET_CAPABILITIES request"@),
        (Stage::Capabilities, Phase::Process) => Some("Failed to process CAPABILITIES response"@),
        (Stage::Algorithms, Phase::Generate) => Some(
            "Failed to generate NEGOTIATE_ALGORITHMS request"@,
        ),
        (Stage::Algorithms, Phase::Send) => Some("Failed to send NEGOTIATE_ALGORITHMS request"@),
        (Stage::Algorithms, Phase::Process) => Some("Failed to process ALGORITHMS response"@),
        (Stage::Digests, Phase::Generate) => Some("Failed to generate GET_DIGESTS request"@),
        (Stage::Digests, Phase::Send) => Some("Failed to send GET_DIGESTS request"@),
        (Stage::Digests, Phase::Process) => Some("Failed to process DIGESTS response"@),
        _ => None,
    }
}

/// The words for a failure, where there are any.
pub fn failure_message(stage: Stage, phase: Phase) -> (message: Option<&'static str>)
    ensures
        match message {
            Some(words) => spec_failure_message(stage, phase) == Some(words@),
            None => spec_failure_message(stage, phase) is None,
        },
{
    match (stage, phase) {
        (Stage::Version, Phase::Generate) => Some("Failed to generate GET_VERSION request"),
        (Stage::Version, Phase::Send) => Some("Failed to send GET_VERSION request"),
        (Stage::Version, Phase::Process) => Some("Failed to process VERSION response"),
        (Stage::Capabilities, Phase::Generate) => Some(
            "Failed to generate GET_CAPABILITIES request",
        ),
        (Stage::Capabilities, Phase::Send) => Some("Failed to send GET_CAPABILITIES request"),
        (Stage::Capabilities, Phase::Process) => Some("Failed to process CAPABILITIES response"),
        (Stage::Algorithms, Phase::Generate) => Some(
            "Failed to generate NEGOTIATE_ALGORITHMS request",
        ),
        (Stage::Algorithms, Phase::Send) => Some("Failed to send NEGOTIATE_ALGORITHMS request"),
        (Stage::Algorithms, Phase::Process) => Some("Failed to process ALGORITHMS response"),
        (Stage::Digests, Phase::Generate) => Some("Failed to generate GET_DIGESTS request"),
        (Stage::Digests, Phase::Send) => Some("Failed to send GET_DIGESTS request"),
        (Stage::Digests, Phase::Process) => Some("Failed to process DIGESTS response"),
        _ => None,
    }
}

/// Whether a mask of certificate slots has the bit of `slot` set.
pub open spec fn is_provisioned(mask: u8, slot: u8) -> bool {
    mask & (1u8 << slot) > 0
}

/// All certificate slots there can be, in order.
pub open spec fn all_slots() -> Seq<u8> {
    Seq::new(8, |i: int| i as u8)
}

/// A list of certificate slots: the first `len` of `slots`.
#[derive(Clone, Copy, Debug, PartialEq, Eq)]
pub struct SlotList {
    pub slots: [u8; 8],
    pub len: usize,
}

impl View for SlotList {
    type V = Seq<u8>;

    open spec fn view(&self) -> Seq<u8> {
        self.slots@.take(self.len as int)
    }
}

/// A slot is provisioned exactly if its own bit is set, whatever the other bits are: if
/// `mask` divided by two to the power of `slot` is odd.
pub proof fn law_slot_is_its_own_bit(mask: u8, slot: u8)
    requires
        slot < 8,
    ensures
        is_provisioned(mask, slot) <==> (mask as nat / vstd::arithmetic::power2::pow2(
            slot as nat,
        )) % 2 == 1,
{
    assert((mask & (1u8 << slot) > 0) == ((mask >> slot) % 2 == 1)) by (bit_vector)
        requires
            slot < 8,
    ;
    vstd::bits::lemma_u8_shr_is_div(mask, slot);
}

/// The slots whose bit is set in `mask`, in ascending order: a slot is in the list exactly
/// if `mask` divided by two to the power of the slot is odd.
pub fn provisioned_slots(mask: u8) -> (list: SlotList)
    ensures
        list.len <= 8,
        list@ == all_slots().filter(|slot: u8| is_provisioned(mask, slot)),
        forall|slot: u8|
            slot < 8 ==> (#[trigger] list.slots@.take(list.len as int).contains(slot) <==> (
            mask as nat / vstd::arithmetic::power2::pow2(slot as nat)) % 2 == 1),
        forall|i: int| 0 <= i < list.len ==> (#[trigger] list.slots@[i]) < 8,
        forall|i: int, j: int| 0 <= i < j < list.len ==> list.slots@[i] < list.slots@[j],
{
    let ghost provisioned = |slot: u8| is_provisioned(mask, slot);
    let mut slots: [u8; 8] = [0, 0, 0, 0, 0, 0, 0, 0];
    let mut len: usize = 0;
    let mut slot: u8 = 0;
    proof {
        reveal(Seq::filter);
        assert(all_slots().take(0) =~= seq![]);
        assert(slots@.take(0) =~= seq![]);
    }
    while slot < 8
        invariant
            len <= slot <= 8,
            provisioned == (|slot: u8| is_provisioned(mask, slot)),
            slots@.take(len as int) == all_slots().take(slot as int).filter(provisioned),
            forall|s: u8|
                s < slot ==> (#[trigger] slots@.take(len as int).contains(s) <==> (mask as nat
                    / vstd::arithmetic::power2::pow2(s as nat)) % 2 == 1),
            forall|i: int| 0 <= i < len ==> (#[trigger] slots@[i]) < slot,
            forall|i: int, j: int| 0 <= i < j < len ==> slots@[i] < slots@[j],
        decreases 8 - slot,
    {
        let ghost listed = slots@.take(len as int);
        proof {
            reveal(Seq::filter);
            law_slot_is_its_own_bit(mask, slot);
            assert(all_slots().take(slot + 1).drop_last() =~= all_slots().take(slot as int));
        }
        if mask & (1u8 << slot) > 0 {
            let ghost before = slots@;
            slots[len] = slot;
            len = len + 1;
            assert(slots@.take(len as int) =~= before.take(len - 1).push(slot));
            assert(slots@.take(len as int).last() == slot);
        }
        proof {
            let now = slots@.take(len as int);
            assert forall|s: u8| s < slot + 1 implies (#[trigger] now.contains(s) <==> (mask as nat
                / vstd::arithmetic::power2::pow2(s as nat)) % 2 == 1) by {
                if s < slot {
                    assert(listed.contains(s) <==> now.contains(s)) by {
                        if listed.contains(s) {
                            let i = listed.index_of(s);
                            assert(now[i] == s);
                        }
                        if now.contains(s) {
                            let i = now.index_of(s);
                            assert(listed[i] == s);
                        }
                    }
                } else if now.contains(s) {
                    let i = now.index_of(s);
                    if i < listed.len() {
                        assert(listed[i] == s);
                    }
                }
            }
        }
        slot = slot + 1;
    }
    proof {
        assert(all_slots().take(8) =~= all_slots());
    }
    SlotList { slots, len }
}

} // verus!
