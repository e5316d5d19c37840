//! Opening a connection to Mercury, step by step.

use vstd::prelude::*;
use crate::bandwidth::{lemma_bandwidth_texts, Bandwidth};
use crate::wire::{frame, framed, on_off, switch};

verus! {

/// How far a connection to mercury has come.
#[derive(Debug, PartialEq, Eq, Structural, Copy, Clone)]
pub enum Stage {
    /// Mercury is to be dialed.
    Dialing,
    /// Small writes are not to be delayed.
    SettingNoDelay,
    /// Mercury is to be told the callsign.
    SendingCallsign,
    /// Mercury is to be told whether to listen.
    SendingListen,
    /// Mercury is to be told the bandwidth.
    SendingBandwidth,
    /// The connection is ready for use.
    Ready,
    /// A step failed.
    Failed,
}

impl Stage {
    /// The stage after this one, by how its step went. `Ready` and `Failed` are the end.
    pub open spec fn next(self, done: bool) -> Stage {
        match self {
            Stage::Ready => Stage::Ready,
            Stage::Failed => Stage::Failed,
            _ => if !done {
                Stage::Failed
            } else {
                match self {
                    Stage::Dialing => Stage::SettingNoDelay,
                    Stage::SettingNoDelay => Stage::SendingCallsign,
                    Stage::SendingCallsign => Stage::SendingListen,
                    Stage::SendingListen => Stage::SendingBandwidth,
                    _ => Stage::Ready,
                }
            },
        }
    }
}

/// What is to be done for a connection to mercury.
#[derive(Debug)]
pub enum HandshakeAction {
    /// Open a stream to this address.
    Dial(String),
    /// Let the stream send without delay.
    SetNoDelay,
    /// Write this to the stream.
    Write(String),
    /// Hand the write half over to the modem, and listen to the read half.
    Install,
    /// Nothing: it has failed.
    GiveUp,
}

/// What a `HandshakeAction` says.
pub enum ActionView {
    Dial(Seq<char>),
    SetNoDelay,
    Write(Seq<char>),
    Install,
    GiveUp,
}

impl View for HandshakeAction {
    type V = ActionView;

    open spec fn view(&self) -> ActionView {
        match self {
            HandshakeAction::Dial(address) => ActionView::Dial(address@),
            HandshakeAction::SetNoDelay => ActionView::SetNoDelay,
            HandshakeAction::Write(text) => ActionView::Write(text@),
            HandshakeAction::Install => ActionView::Install,
            HandshakeAction::GiveUp => ActionView::GiveUp,
        }
    }
}

/// A connection to mercury in the making.
#[derive(Debug)]
pub struct Handshake {
    /// The ip:port of mercury
    pub destination: String,
    /// The callsign of this station
    pub mycall: String,
    /// Whether to listen to incoming ARQ connections
    pub listen: bool,
    /// The bandwidth to ask for
    pub bandwidth: Bandwidth,
    /// How far it has come
    pub stage: Stage,
}

/// What a `Handshake` holds.
pub struct HandshakeView {
    pub destination: Seq<char>,
    pub mycall: Seq<char>,
    pub listen: bool,
    pub bandwidth: Bandwidth,
    pub stage: Stage,
}

impl View for Handshake {
    type V = HandshakeView;

    open spec fn view(&self) -> HandshakeView {
        HandshakeView {
            destination: self.destination@,
            mycall: self.mycall@,
            listen: self.listen,
            bandwidth: self.bandwidth,
            stage: self.stage,
        }
    }
}

impl HandshakeView {
    /// What is to be done at this stage.
    pub open spec fn action(self) -> ActionView {
        match self.stage {
            Stage::Dialing => ActionView::Dial(self.destination),
            Stage::SettingNoDelay => ActionView::SetNoDelay,
            Stage::SendingCallsign => ActionView::Write(framed("MYCALL "@ + self.mycall)),
            Stage::SendingListen => ActionView::Write(framed("LISTEN "@ + on_off(self.listen))),
            Stage::SendingBandwidth => ActionView::Write(framed(self.bandwidth.name())),
            Stage::Ready => ActionView::Install,
            Stage::Failed => ActionView::GiveUp,
        }
    }

    /// The handshake once the action went as `done` says.
    pub open spec fn step(self, done: bool) -> HandshakeView {
        HandshakeView { stage: self.stage.next(done), ..self }
    }

    /// The handshake once the actions went as `outcomes` says, one after the other.
    pub open spec fn steps(self, outcomes: Seq<bool>) -> HandshakeView
        decreases outcomes.len(),
    {
        if outcomes.len() == 0 {
            self
        } else {
            self.steps(outcomes.drop_last()).step(outcomes.last())
        }
    }
}

impl Handshake {
    /// A connection to mercury of which nothing is done yet.
    pub fn new(destination: String, mycall: String, listen: bool, bandwidth: Bandwidth) -> (r:
        Handshake)
        ensures
            r@ == (HandshakeView {
                destination: destination@,
                mycall: mycall@,
                listen,
                bandwidth,
                stage: Stage::Dialing,
            }),
    {
        Handshake { destination, mycall, listen, bandwidth, stage: Stage::Dialing }
    }

    /// What is to be done now.
    pub fn action(&self) -> (r: HandshakeAction)
        ensures
            r@ == self@.action(),
    {
        match self.stage {
            Stage::Dialing => HandshakeAction::Dial(self.destination.clone()),
            Stage::SettingNoDelay => HandshakeAction::SetNoDelay,
            // Set callsign
            Stage::SendingCallsign => HandshakeAction::Write(
                frame(String::from_str("MYCALL ").concat(self.mycall.as_str())),
            ),
            // Set listening state
            Stage::SendingListen => HandshakeAction::Write(
                frame(String::from_str("LISTEN ").concat(switch(self.listen))),
            ),
            // Set bandwidth
            Stage::SendingBandwidth => HandshakeAction::Write(frame(self.bandwidth.to_string())),
            Stage::Ready => HandshakeAction::Install,
            Stage::Failed => HandshakeAction::GiveUp,
        }
    }

    /// Takes note of how the action went.
    pub fn advance(&mut self, done: bool)
        ensures
            final(self)@ == old(self)@.step(done),
    {
        let stage = match self.stage {
            Stage::Ready => Stage::Ready,
            Stage::Failed => Stage::Failed,
            _ if !done => Stage::Failed,
            Stage::Dialing => Stage::SettingNoDelay,
            Stage::SettingNoDelay => Stage::SendingCallsign,
            Stage::SendingCallsign => Stage::SendingListen,
            Stage::SendingListen => Stage::SendingBandwidth,
            Stage::SendingBandwidth => Stage::Ready,
        };
        self.stage = stage;
    }
}

/// Everything that is to be done for a connection to mercury, in order.
pub open spec fn script(start: HandshakeView) -> Seq<ActionView> {
    seq![
        ActionView::Dial(start.destination),
        ActionView::SetNoDelay,
        ActionView::Write(framed("MYCALL "@ + start.mycall)),
        ActionView::Write(framed("LISTEN "@ + on_off(start.listen))),
        ActionView::Write(framed(start.bandwidth.name())),
        ActionView::Install,
    ]
}

/// Whether the first `n` of `outcomes` are good.
pub open spec fn first_done(outcomes: Seq<bool>, n: int) -> bool {
    forall|i: int| 0 <= i < n ==> #[trigger] outcomes[i]
}

/// As long as every step succeeds, what is to be done follows the script to its end.
pub proof fn handshake_follows_the_script(start: HandshakeView, outcomes: Seq<bool>)
    requires
        start.stage is Dialing,
        outcomes.len() <= 5,
        first_done(outcomes, outcomes.len() as int),
    ensures
        start.steps(outcomes).action() == script(start)[outcomes.len() as int],
{
    lemma_steps(start, outcomes);
}

/// The connection is handed over to the modem if and only if the dialing, the setting up and the
/// three greetings were all done and all succeeded.
pub proof fn handshake_installs_after_five_steps(start: HandshakeView, outcomes: Seq<bool>)
    requires
        start.stage is Dialing,
    ensures
        start.steps(outcomes).action() is Install <==> outcomes.len() >= 5 && first_done(
            outcomes,
            5,
        ),
{
    lemma_steps(start, outcomes);
}

/// It is given up if and only if one of these steps failed, whatever is said after that.
pub proof fn handshake_gives_up_at_the_first_failure(start: HandshakeView, outcomes: Seq<bool>)
    requires
        start.stage is Dialing,
    ensures
        start.steps(outcomes).action() is GiveUp <==> exists|i: int|
            0 <= i < outcomes.len() && i < 5 && !#[trigger] outcomes[i],
{
    lemma_steps(start, outcomes);
}

/// The stage that so many good steps lead to.
spec fn stage_after(n: int) -> Stage {
    if n <= 0 {
        Stage::Dialing
    } else if n == 1 {
        Stage::SettingNoDelay
    } else if n == 2 {
        Stage::SendingCallsign
    } else if n == 3 {
        Stage::SendingListen
    } else if n == 4 {
        Stage::SendingBandwidth
    } else {
        Stage::Ready
    }
}

/// The stage is told by the number of steps while the first five succeed, and is failure after
/// one of them fails. Nothing else of the handshake changes.
proof fn lemma_steps(start: HandshakeView, outcomes: Seq<bool>)
    requires
        start.stage is Dialing,
    ensures
        start.steps(outcomes) == (HandshakeView { stage: start.steps(outcomes).stage, ..start }),
        (exists|i: int| 0 <= i < outcomes.len() && i < 5 && !#[trigger] outcomes[i]) ==>
            start.steps(outcomes).stage == Stage::Failed,
        (forall|i: int| 0 <= i < outcomes.len() && i < 5 ==> #[trigger] outcomes[i]) ==>
            start.steps(outcomes).stage == stage_after(outcomes.len() as int),
    decreases outcomes.len(),
{
    if outcomes.len() > 0 {
        let before = outcomes.drop_last();
        lemma_steps(start, before);
        assert(forall|i: int| 0 <= i < before.len() ==> before[i] == #[trigger] outcomes[i]);
        if exists|i: int| 0 <= i < outcomes.len() && i < 5 && !#[trigger] outcomes[i] {
            let i = choose|i: int| 0 <= i < outcomes.len() && i < 5 && !#[trigger] outcomes[i];
            if i < before.len() {
                assert(!before[i]);
            }
        }
    }
}

/// What a handshake holds and asks for is what its view says, field for field.
pub proof fn handshakes_are_viewed_so(handshake: Handshake, text: String)
    ensures
        handshake@.destination == handshake.destination@,
        handshake@.mycall == handshake.mycall@,
        handshake@.listen == handshake.listen,
        handshake@.bandwidth == handshake.bandwidth,
        handshake@.stage == handshake.stage,
        HandshakeAction::Dial(text)@ == ActionView::Dial(text@),
        HandshakeAction::SetNoDelay@ is SetNoDelay,
        HandshakeAction::Write(text)@ == ActionView::Write(text@),
        HandshakeAction::Install@ is Install,
        HandshakeAction::GiveUp@ is GiveUp,
{
}

/// The steps of a handshake come one after the other, and each changes nothing but the stage.
pub proof fn steps_come_one_after_the_other(
    start: HandshakeView,
    outcomes: Seq<bool>,
    outcome: bool,
)
    ensures
        start.steps(Seq::<bool>::empty()) == start,
        start.steps(outcomes.push(outcome)) == start.steps(outcomes).step(outcome),
        start.step(outcome).destination == start.destination,
        start.step(outcome).mycall == start.mycall,
        start.step(outcome).listen == start.listen,
        start.step(outcome).bandwidth == start.bandwidth,
{
    assert(outcomes.push(outcome).drop_last() =~= outcomes);
}

/// Mercury is dialed at the destination, told not to delay, and greeted with the callsign, the
/// listen state and the bandwidth, in this order and to the last character; then the connection is
/// handed over, and no more is asked for.
pub proof fn mercury_is_greeted_so(start: HandshakeView, outcomes: Seq<bool>)
    requires
        start.stage is Dialing,
        forall|i: int| 0 <= i < outcomes.len() ==> #[trigger] outcomes[i],
    ensures
        ({
            let action = start.steps(outcomes).action();
            &&& outcomes.len() == 0 ==> action == ActionView::Dial(start.destination)
            &&& outcomes.len() == 1 ==> action == ActionView::SetNoDelay
            &&& outcomes.len() == 2 ==> action == ActionView::Write(
                "MYCALL "@ + start.mycall + "\r"@,
            )
            &&& outcomes.len() == 3 ==> action == ActionView::Write(
                if start.listen {
                    "LISTEN ON\r"@
                } else {
                    "LISTEN OFF\r"@
                },
            )
            &&& outcomes.len() == 4 ==> action == ActionView::Write(
                match start.bandwidth {
                    Bandwidth::BW500 => "BW500\r"@,
                    Bandwidth::BW2300 => "BW2300\r"@,
                    Bandwidth::BW2750 => "BW2750\r"@,
                },
            )
            &&& outcomes.len() >= 5 ==> action == ActionView::Install
        }),
{
    lemma_steps(start, outcomes);
    lemma_bandwidth_texts();
    reveal_strlit("\r");
    reveal_strlit("ON");
    reveal_strlit("OFF");
    reveal_strlit("LISTEN ");
    reveal_strlit("LISTEN ON\r");
    reveal_strlit("LISTEN OFF\r");
    reveal_strlit("BW500\r");
    reveal_strlit("BW2300\r");
    reveal_strlit("BW2750\r");
    assert(framed("MYCALL "@ + start.mycall) =~= "MYCALL "@ + start.mycall + "\r"@);
    assert(framed("LISTEN "@ + on_off(start.listen)) =~= if start.listen {
        "LISTEN ON\r"@
    } else {
        "LISTEN OFF\r"@
    });
    assert("BW500"@.push('\r') =~= "BW500\r"@);
    assert("BW2300"@.push('\r') =~= "BW2300\r"@);
    assert("BW2750"@.push('\r') =~= "BW2750\r"@);
}

/// Nothing is asked for after a failure, whatever came before and whatever is said after it, and
/// the connection is not handed over then.
pub proof fn a_failure_ends_the_handshake(start: HandshakeView, outcomes: Seq<bool>, i: int)
    requires
        start.stage is Dialing,
        0 <= i < outcomes.len(),
        i < 5,
        !outcomes[i],
    ensures
        start.steps(outcomes).action() == ActionView::GiveUp,
{
    lemma_steps(start, outcomes);
}

} // verus!
