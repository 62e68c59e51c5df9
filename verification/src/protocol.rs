//! Modem command/response protocol engine: command framing, timeout-bounded
//! response collection, and the outbound-message state machine.
//!
//! The engine is purely decision-level: callers perform the serial I/O and
//! hand the collected bytes back.  Every byte the modem is to receive is
//! stated exactly in the contracts.

use vstd::prelude::*;
use vstd::utf8::encode_utf8;
use crate::strutil::{has_subseq, find_subslice_byte};

verus! {

/// The bytes of one framed command line: `"AT"`, the command, then CRLF —
/// the line terminator appears exactly once, at the end.
pub open spec fn at_line_bytes(cmd: Seq<char>) -> Seq<u8> {
    seq![65u8, 84u8] + encode_utf8(cmd) + seq![13u8, 10u8]
}

/// The terminal success marker `"OK"`.
pub open spec fn ok_marker() -> Seq<u8> {
    seq![79u8, 75u8]
}

/// The terminal failure marker `"ERROR"`.
pub open spec fn error_marker() -> Seq<u8> {
    seq![69u8, 82u8, 82u8, 79u8, 82u8]
}

/// The message-reference confirmation marker `"+CMGS:"`.
pub open spec fn cmgs_marker() -> Seq<u8> {
    seq![43u8, 67u8, 77u8, 71u8, 83u8, 58u8]
}

/// A command response is terminal when it contains `"OK"` or `"ERROR"`.
pub open spec fn response_terminal(buf: Seq<u8>) -> bool {
    has_subseq(buf, ok_marker()) || has_subseq(buf, error_marker())
}

/// A send confirmation is terminal when it contains `"OK"`, `"ERROR"` or
/// the message-reference marker.
pub open spec fn send_terminal(buf: Seq<u8>) -> bool {
    response_terminal(buf) || has_subseq(buf, cmgs_marker())
}

/// Frame one command line: `"AT" + cmd + CRLF`.
pub fn format_at_command(cmd: &str) -> (r: Vec<u8>)
    ensures
        r@ == at_line_bytes(cmd@),
{
    let mut r: Vec<u8> = Vec::new();
    r.push(65);
    r.push(84);
    assert(r@ =~= seq![65u8, 84u8]);
    r.extend_from_slice(cmd.as_bytes());
    r.push(13);
    r.push(10);
    assert(r@ =~= at_line_bytes(cmd@));
    r
}

/// Which markers end a collection.
pub enum CollectMode {
    /// Waiting for a command response: `"OK"` or `"ERROR"`.
    Command,
    /// Waiting for a send confirmation: also `"+CMGS:"`.
    SendConfirm,
}

/// The terminal condition for the given mode.
pub open spec fn terminal_for(m: CollectMode, buf: Seq<u8>) -> bool {
    match m {
        CollectMode::Command => response_terminal(buf),
        CollectMode::SendConfirm => send_terminal(buf),
    }
}

/// Whether a collection ended by marker or was cut short by its deadline.
#[derive(PartialEq, Eq, Structural)]
pub enum CommandStatus {
    /// A terminal marker was observed.
    Completed,
    /// The deadline elapsed first; the bytes are a best-effort partial
    /// response.
    PartialOnTimeout,
}

/// Accumulates response bytes read in small time-sliced increments, and
/// reports completion as soon as the accumulated buffer contains a
/// terminal marker — no later chunk is consumed within the same call once
/// completion is reported.
pub struct ResponseCollector {
    mode: CollectMode,
    buf: Vec<u8>,
}

impl View for ResponseCollector {
    type V = Seq<u8>;

    closed spec fn view(&self) -> Seq<u8> {
        self.buf@
    }
}

impl ResponseCollector {
    /// The collection mode this collector was created with.
    pub closed spec fn spec_mode(&self) -> CollectMode {
        self.mode
    }

    /// An empty collector.
    pub fn new(mode: CollectMode) -> (r: ResponseCollector)
        ensures
            r@ == Seq::<u8>::empty(),
            r.spec_mode() == mode,
    {
        ResponseCollector { mode, buf: Vec::new() }
    }

    /// Append one read chunk; the result says whether the accumulated
    /// buffer now holds a terminal marker, so the caller stops reading
    /// exactly at the first chunk that completes the response.
    pub fn push_chunk(&mut self, chunk: &[u8]) -> (done: bool)
        ensures
            final(self)@ == old(self)@ + chunk@,
            final(self).spec_mode() == old(self).spec_mode(),
            done == terminal_for(final(self).spec_mode(), final(self)@),
    {
        self.buf.extend_from_slice(chunk);
        self.is_complete()
    }

    /// Whether the accumulated buffer holds a terminal marker.
    pub fn is_complete(&self) -> (r: bool)
        ensures
            r == terminal_for(self.spec_mode(), self@),
    {
        let ok = find_subslice_byte(self.buf.as_slice(), &[79, 75]);
        assert(seq![79u8, 75u8] =~= ok_marker());
        match self.mode {
            CollectMode::Command => {
                let err = find_subslice_byte(self.buf.as_slice(), &[69, 82, 82, 79, 82]);
                assert(seq![69u8, 82u8, 82u8, 79u8, 82u8] =~= error_marker());
                ok || err
            },
            CollectMode::SendConfirm => {
                let err = find_subslice_byte(self.buf.as_slice(), &[69, 82, 82, 79, 82]);
                assert(seq![69u8, 82u8, 82u8, 79u8, 82u8] =~= error_marker());
                let cmgs = find_subslice_byte(self.buf.as_slice(), &[43, 67, 77, 71, 83, 58]);
                assert(seq![43u8, 67u8, 77u8, 71u8, 83u8, 58u8] =~= cmgs_marker());
                ok || err || cmgs
            },
        }
    }

    /// The collected bytes, tagged with whether the wait completed by
    /// marker or was cut short by the deadline.
    pub fn finish(self) -> (r: (CommandStatus, Vec<u8>))
        ensures
            r.1@ == self@,
            r.0 == CommandStatus::Completed <==> terminal_for(self.spec_mode(), self@),
    {
        let done = self.is_complete();
        let status = if done {
            CommandStatus::Completed
        } else {
            CommandStatus::PartialOnTimeout
        };
        (status, self.buf)
    }
}

/// State of the outbound-message protocol.
#[derive(Clone, Copy, PartialEq, Eq, Structural)]
pub enum SendState {
    /// Select text mode with `+CMGF=1`.
    SetTextMode,
    /// Announce the destination address with `+CMGS="<number>"`, then let
    /// the modem settle for a fixed delay.
    AddressEntry,
    /// Write the message body followed by the single end-of-message
    /// control byte.
    BodyWrite,
    /// Read until a confirmation marker or the overall deadline.
    AwaitConfirmation,
    /// The modem confirmed the message.
    Done,
    /// The attempt failed (error response, timeout, or transport failure).
    Failed,
}

/// What the caller must do next to drive a send forward.
pub enum SendAction {
    /// Write the line, then collect a command response.
    WriteAndCollect { line: Vec<u8> },
    /// Write the line, then wait `settle_ms` before continuing.
    WriteAndSettle { line: Vec<u8>, settle_ms: u64 },
    /// Write the bytes as they stand (no framing added).
    WriteRaw { bytes: Vec<u8> },
    /// Collect a send confirmation, bounded by `timeout_ms`.
    Collect { timeout_ms: u64 },
    /// The protocol has finished; `ok` says whether it succeeded.
    Finished { ok: bool },
}

/// What happened while the caller performed the requested action.
pub enum SendEvent {
    /// The write (and any settle delay) completed.
    Written,
    /// A response or confirmation was collected.
    Response(Vec<u8>),
    /// The overall deadline elapsed.
    TimedOut,
    /// The serial transport failed.
    TransportFailed,
}

/// The successor state for one event.
pub open spec fn send_transition(st: SendState, ev: &SendEvent) -> SendState {
    match ev {
        SendEvent::TimedOut => SendState::Failed,
        SendEvent::TransportFailed => SendState::Failed,
        SendEvent::Written => match st {
            SendState::AddressEntry => SendState::BodyWrite,
            SendState::BodyWrite => SendState::AwaitConfirmation,
            _ => st,
        },
        SendEvent::Response(b) => match st {
            SendState::SetTextMode => SendState::AddressEntry,
            SendState::AwaitConfirmation => if has_subseq(b@, error_marker()) {
                SendState::Failed
            } else {
                SendState::Done
            },
            _ => st,
        },
    }
}

/// The end-of-message control byte.
pub open spec fn end_of_message_byte() -> u8 {
    26
}

/// The body bytes a send writes: the message text followed by exactly one
/// end-of-message control byte.
pub open spec fn send_body_bytes(text: Seq<char>) -> Seq<u8> {
    encode_utf8(text) + seq![end_of_message_byte()]
}

/// The address line command: `+CMGS="<number>"`.
pub open spec fn cmgs_command(number: Seq<char>) -> Seq<char> {
    "+CMGS=\""@ + number + "\""@
}

/// Drives one outbound message through the fixed command sequence.
///
/// The settle delay and the confirmation deadline are taken at
/// construction rather than being embedded constants, since real hardware
/// timing varies.
pub struct SendSession {
    number: String,
    text: String,
    state: SendState,
    settle_ms: u64,
    confirm_timeout_ms: u64,
}

impl SendSession {
    /// The current protocol state.
    pub closed spec fn spec_state(&self) -> SendState {
        self.state
    }

    /// The destination address.
    pub closed spec fn spec_number(&self) -> Seq<char> {
        self.number@
    }

    /// The message text.
    pub closed spec fn spec_text(&self) -> Seq<char> {
        self.text@
    }

    /// A session ready to select text mode.
    pub fn new(number: String, text: String, settle_ms: u64, confirm_timeout_ms: u64) -> (r:
        SendSession)
        ensures
            r.spec_state() == SendState::SetTextMode,
            r.spec_number() == number@,
            r.spec_text() == text@,
    {
        SendSession { number, text, state: SendState::SetTextMode, settle_ms, confirm_timeout_ms }
    }

    /// The action the caller must perform in the current state.
    pub fn next_action(&self) -> (a: SendAction)
        ensures
            self.spec_state() == SendState::SetTextMode ==> (a matches SendAction::WriteAndCollect {
                line,
            } && line@ == at_line_bytes("+CMGF=1"@)),
            self.spec_state() == SendState::AddressEntry ==> (a matches SendAction::WriteAndSettle {
                line,
                settle_ms,
            } && line@ == at_line_bytes(cmgs_command(self.spec_number()))),
            self.spec_state() == SendState::BodyWrite ==> (a matches SendAction::WriteRaw { bytes }
                && bytes@ == send_body_bytes(self.spec_text())),
            self.spec_state() == SendState::AwaitConfirmation ==> a matches SendAction::Collect {
                ..
            },
            self.spec_state() == SendState::Done ==> (a matches SendAction::Finished { ok }
                && ok == true),
            self.spec_state() == SendState::Failed ==> (a matches SendAction::Finished { ok }
                && ok == false),
    {
        match self.state {
            SendState::SetTextMode => SendAction::WriteAndCollect {
                line: format_at_command("+CMGF=1"),
            },
            SendState::AddressEntry => {
                let mut cmd = "+CMGS=\"".to_owned();
                cmd.append(self.number.as_str());
                cmd.append("\"");
                SendAction::WriteAndSettle {
                    line: format_at_command(cmd.as_str()),
                    settle_ms: self.settle_ms,
                }
            },
            SendState::BodyWrite => {
                let mut bytes: Vec<u8> = Vec::new();
                bytes.extend_from_slice(self.text.as_str().as_bytes());
                bytes.push(26);
                assert(bytes@ =~= send_body_bytes(self.text@));
                SendAction::WriteRaw { bytes }
            },
            SendState::AwaitConfirmation => SendAction::Collect {
                timeout_ms: self.confirm_timeout_ms,
            },
            SendState::Done => SendAction::Finished { ok: true },
            SendState::Failed => SendAction::Finished { ok: false },
        }
    }

    /// Advance the protocol on the outcome of the last action.
    pub fn advance(&mut self, ev: SendEvent)
        ensures
            final(self).spec_state() == send_transition(old(self).spec_state(), &ev),
            final(self).spec_number() == old(self).spec_number(),
            final(self).spec_text() == old(self).spec_text(),
    {
        let next = match &ev {
            SendEvent::TimedOut => SendState::Failed,
            SendEvent::TransportFailed => SendState::Failed,
            SendEvent::Written => match self.state {
                SendState::AddressEntry => SendState::BodyWrite,
                SendState::BodyWrite => SendState::AwaitConfirmation,
                _ => self.state,
            },
            SendEvent::Response(b) => match self.state {
                SendState::SetTextMode => SendState::AddressEntry,
                SendState::AwaitConfirmation => {
                    let err = find_subslice_byte(b.as_slice(), &[69, 82, 82, 79, 82]);
                    assert(seq![69u8, 82u8, 82u8, 79u8, 82u8] =~= error_marker());
                    if err {
                        SendState::Failed
                    } else {
                        SendState::Done
                    }
                },
                _ => self.state,
            },
        };
        self.state = next;
    }
}

/// The decimal digits of a non-negative number.
pub open spec fn dec_digits(n: int) -> Seq<char>
    decreases n,
{
    if n < 10 {
        seq![(((48 + if n >= 0 { n } else { 0 }) as u32) as char)]
    } else {
        dec_digits(n / 10).push((((48 + n % 10) as u32) as char))
    }
}

fn append_dec_u32(s: &mut String, n: u32)
    ensures
        final(s)@ == old(s)@ + dec_digits(n as int),
    decreases n,
{
    if n < 10 {
        let v: u32 = 48 + n;
        let c = char::from_u32(v).unwrap();
        proof {
            vstd::utf8::char_u32_cast(c, v);
        }
        crate::strutil::push_char(s, c);
        assert(final(s)@ =~= old(s)@ + dec_digits(n as int));
    } else {
        append_dec_u32(s, n / 10);
        let v: u32 = 48 + n % 10;
        let c = char::from_u32(v).unwrap();
        proof {
            vstd::utf8::char_u32_cast(c, v);
        }
        crate::strutil::push_char(s, c);
        assert(final(s)@ =~= old(s)@ + dec_digits(n as int));
    }
}

/// The command line selecting text mode.
pub fn textmode_command() -> (r: Vec<u8>)
    ensures
        r@ == at_line_bytes("+CMGF=1"@),
{
    format_at_command("+CMGF=1")
}

/// The command line listing all stored messages.
pub fn list_command() -> (r: Vec<u8>)
    ensures
        r@ == at_line_bytes("+CMGL=\"ALL\""@),
{
    format_at_command("+CMGL=\"ALL\"")
}

/// The command line deleting the message in the given slot.
pub fn delete_command(index: u32) -> (r: Vec<u8>)
    ensures
        r@ == at_line_bytes("+CMGD="@ + dec_digits(index as int)),
{
    let mut cmd = "+CMGD=".to_owned();
    append_dec_u32(&mut cmd, index);
    format_at_command(cmd.as_str())
}

} // verus!
