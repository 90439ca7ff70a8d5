//! The AT command engine.
//!
//! AT commands are sent to the modem down a socket using the Nordic
//! `NRF_PROTO_AT` protocol.  The modem answers with lines of text; a line
//! is terminal -- `OK`, `ERROR`, `+CME ERROR: n` or `+CMS ERROR: n` -- or
//! an indication that is relayed to the caller.  Reads are non-blocking
//! and may split a line anywhere, so [`ResponseParser`] keeps the
//! unterminated tail of what has arrived and carries it into the next
//! read; a terminal line split across reads is still recognised once its
//! bytes are all in.
//!
//! [`spec_process`] is the meaning of the whole engine: what lines a byte
//! stream contains, which of them ends the exchange, and what stays
//! buffered.

use vstd::prelude::*;
use crate::backend::Backend;
use crate::raw::Socket;
use crate::raw::SocketDomain;
use crate::raw::SocketProtocol;
use crate::raw::SocketType;
use crate::text::find_break;
use crate::text::has_prefix;
use crate::text::is_break;
use crate::text::lemma_find_break_at;
use crate::text::lemma_find_break_bounds;
use crate::text::has_prefix_spec;
use crate::text::parse_i32_default_neg1;
use crate::text::parse_i32_or_neg1;
use crate::text::str_bytes;
use crate::text::subvec;
use crate::text::trim;
use crate::text::trim_spec;
use crate::AtError;
use crate::Error;

verus! {

/// Upper bound on re-polls of a read that would block: enough waits to
/// never run out in practice, while keeping every loop finite.
pub const RETRY_BUDGET: u64 = 0xffff_ffff_ffff_ffff;

/// The bytes of the terminal success line `OK`.
pub open spec fn ok_bytes() -> Seq<u8> {
    seq![79u8, 75u8]
}

/// The bytes of the terminal failure line `ERROR`.
pub open spec fn error_bytes() -> Seq<u8> {
    seq![69u8, 82u8, 82u8, 79u8, 82u8]
}

/// The bytes of the prefix `+CME ERROR:`.
pub open spec fn cme_prefix() -> Seq<u8> {
    seq![43u8, 67u8, 77u8, 69u8, 32u8, 69u8, 82u8, 82u8, 79u8, 82u8, 58u8]
}

/// The bytes of the prefix `+CMS ERROR:`.
pub open spec fn cms_prefix() -> Seq<u8> {
    seq![43u8, 67u8, 77u8, 83u8, 32u8, 69u8, 82u8, 82u8, 79u8, 82u8, 58u8]
}

/// What one response line means.
#[derive(Debug, Clone, PartialEq, Eq)]
pub enum LineClass {
    /// The exchange ended successfully (`OK`).
    TerminalOk,
    /// The exchange ended in failure, with the classified error.
    TerminalFailure(AtError),
    /// A non-terminal line, to be relayed to the caller.
    Indication,
}

/// Classification of one response line, after trimming whitespace: exactly
/// `OK` is terminal success; exactly `ERROR` is a generic terminal
/// failure; `+CME ERROR:` and `+CMS ERROR:` prefixes are terminal failures
/// carrying the decimal sub-code after the colon (-1 when it does not
/// parse), in the mobile-equipment and message-service namespaces; every
/// other line is an indication.
pub open spec fn spec_classify_line(line: Seq<u8>) -> LineClass {
    let t = trim_spec(line);
    if t == ok_bytes() {
        LineClass::TerminalOk
    } else if t == error_bytes() {
        LineClass::TerminalFailure(AtError::Error)
    } else if has_prefix_spec(t, cme_prefix()) {
        LineClass::TerminalFailure(
            AtError::CmeError(parse_i32_or_neg1(trim_spec(t.skip(11))) as i32),
        )
    } else if has_prefix_spec(t, cms_prefix()) {
        LineClass::TerminalFailure(
            AtError::CmsError(parse_i32_or_neg1(trim_spec(t.skip(11))) as i32),
        )
    } else {
        LineClass::Indication
    }
}

/// The `OK` bytes as a vector.
fn ok_vec() -> (r: Vec<u8>)
    ensures
        r@ == ok_bytes(),
{
    let mut v: Vec<u8> = Vec::new();
    v.push(79);
    v.push(75);
    proof {
        assert(v@ =~= ok_bytes());
    }
    v
}

/// The `ERROR` bytes as a vector.
fn error_vec() -> (r: Vec<u8>)
    ensures
        r@ == error_bytes(),
{
    let mut v: Vec<u8> = Vec::new();
    v.push(69);
    v.push(82);
    v.push(82);
    v.push(79);
    v.push(82);
    proof {
        assert(v@ =~= error_bytes());
    }
    v
}

/// The `+CME ERROR:` bytes as a vector.
fn cme_vec() -> (r: Vec<u8>)
    ensures
        r@ == cme_prefix(),
{
    let mut v: Vec<u8> = Vec::new();
    v.push(43);
    v.push(67);
    v.push(77);
    v.push(69);
    v.push(32);
    v.push(69);
    v.push(82);
    v.push(82);
    v.push(79);
    v.push(82);
    v.push(58);
    proof {
        assert(v@ =~= cme_prefix());
    }
    v
}

/// The `+CMS ERROR:` bytes as a vector.
fn cms_vec() -> (r: Vec<u8>)
    ensures
        r@ == cms_prefix(),
{
    let mut v: Vec<u8> = Vec::new();
    v.push(43);
    v.push(67);
    v.push(77);
    v.push(83);
    v.push(32);
    v.push(69);
    v.push(82);
    v.push(82);
    v.push(79);
    v.push(82);
    v.push(58);
    proof {
        assert(v@ =~= cms_prefix());
    }
    v
}

/// Classify one response line.
pub fn classify_line(line: &Vec<u8>) -> (r: LineClass)
    ensures
        r == spec_classify_line(line@),
{
    let t = trim(line);
    let ok = ok_vec();
    if crate::text::bytes_eq(t.as_slice(), ok.as_slice()) {
        return LineClass::TerminalOk;
    }
    let err = error_vec();
    if crate::text::bytes_eq(t.as_slice(), err.as_slice()) {
        return LineClass::TerminalFailure(AtError::Error);
    }
    let cme = cme_vec();
    if has_prefix(t.as_slice(), cme.as_slice()) {
        let rest = subvec(&t, 11, t.len());
        proof {
            assert(rest@ =~= trim_spec(line@).skip(11));
        }
        let digits = trim(&rest);
        let value = parse_i32_default_neg1(&digits);
        return LineClass::TerminalFailure(AtError::CmeError(value));
    }
    let cms = cms_vec();
    if has_prefix(t.as_slice(), cms.as_slice()) {
        let rest = subvec(&t, 11, t.len());
        proof {
            assert(rest@ =~= trim_spec(line@).skip(11));
        }
        let digits = trim(&rest);
        let value = parse_i32_default_neg1(&digits);
        return LineClass::TerminalFailure(AtError::CmsError(value));
    }
    LineClass::Indication
}

/// A terminal outcome of an AT exchange.
#[derive(Debug, Clone, PartialEq, Eq)]
pub enum Terminal {
    /// The modem answered `OK`.
    Success,
    /// The modem answered with a terminal failure line.
    Failure(AtError),
}

/// The meaning of a buffered byte stream: the indications it contains (in
/// order, trimmed, blank lines dropped), the terminal outcome if one of
/// its complete lines is terminal, and what stays buffered.  A complete
/// line is classified in full; an unterminated tail is recognised early
/// only when it already reads exactly `OK` or `ERROR` (a terminal line
/// need not be newline-terminated at buffer end), and otherwise waits for
/// more bytes.  Lines after the terminal line are left buffered.
pub open spec fn spec_process(s: Seq<u8>) -> (Seq<Seq<u8>>, Option<Terminal>, Seq<u8>)
    decreases s.len(),
{
    match find_break(s) {
        Some(i) => if 0 <= i < s.len() {
            let line = s.take(i);
            let rest = s.skip(i + 1);
            match spec_classify_line(line) {
                LineClass::TerminalOk => (Seq::empty(), Some(Terminal::Success), rest),
                LineClass::TerminalFailure(e) => (Seq::empty(), Some(Terminal::Failure(e)), rest),
                LineClass::Indication => {
                    let t = trim_spec(line);
                    let tail = spec_process(rest);
                    if t.len() == 0 {
                        tail
                    } else {
                        (seq![t] + tail.0, tail.1, tail.2)
                    }
                },
            }
        } else {
            // `find_break` always lands inside `s`; this branch is never
            // the case.
            (Seq::empty(), None, s)
        },
        None => {
            let t = trim_spec(s);
            if t == ok_bytes() {
                (Seq::empty(), Some(Terminal::Success), Seq::empty())
            } else if t == error_bytes() {
                (Seq::empty(), Some(Terminal::Failure(AtError::Error)), Seq::empty())
            } else {
                (Seq::empty(), None, s)
            }
        },
    }
}

/// What one call to [`ResponseParser::feed`] reports: the indication
/// lines completed by the new bytes, and the terminal outcome if one was
/// reached.
#[derive(Debug)]
pub struct FeedOutcome {
    /// Completed non-terminal lines, trimmed, in arrival order.
    pub indications: Vec<Vec<u8>>,
    /// The terminal outcome, if the bytes so far contain one.
    pub terminal: Option<Terminal>,
}

/// Reassembles response lines from a stream of partial reads.
///
/// The parser owns the unterminated tail of everything fed so far, so a
/// line split across reads -- even a terminal one -- is classified once
/// its remaining bytes arrive, and nothing is lost between reads that
/// return no data.
#[derive(Debug)]
pub struct ResponseParser {
    pending: Vec<u8>,
}

impl ResponseParser {
    /// The bytes fed but not yet consumed as complete lines.
    pub closed spec fn pending_view(self) -> Seq<u8> {
        self.pending@
    }

    /// A fresh parser with nothing buffered.
    pub fn new() -> (r: ResponseParser)
        ensures
            r.pending_view() == Seq::<u8>::empty(),
    {
        let r = ResponseParser { pending: Vec::new() };
        proof {
            assert(r.pending_view() =~= Seq::<u8>::empty());
        }
        r
    }

    /// Feed the bytes of one read into the parser and consume every line
    /// they complete: exactly [`spec_process`] applied to the buffered
    /// bytes followed by `chunk`.
    pub fn feed(&mut self, chunk: &[u8]) -> (r: FeedOutcome)
        ensures
            r.indications.deep_view() == spec_process(old(self).pending_view() + chunk@).0,
            r.terminal == spec_process(old(self).pending_view() + chunk@).1,
            final(self).pending_view() == spec_process(old(self).pending_view() + chunk@).2,
    {
        let ghost s0 = self.pending@ + chunk@;
        let mut k: usize = 0;
        while k < chunk.len()
            invariant
                0 <= k <= chunk@.len(),
                self.pending@ == old(self).pending@ + chunk@.take(k as int),
            decreases chunk@.len() - k,
        {
            self.pending.push(chunk[k]);
            proof {
                assert(old(self).pending@ + chunk@.take(k + 1) =~= (old(self).pending@
                    + chunk@.take(k as int)).push(chunk@[k as int]));
            }
            k = k + 1;
        }
        proof {
            assert(chunk@.take(chunk@.len() as int) =~= chunk@);
            assert(self.pending@ == s0);
        }
        let mut inds: Vec<Vec<u8>> = Vec::new();
        proof {
            assert(inds.deep_view() + spec_process(self.pending@).0 =~~= spec_process(
                self.pending@,
            ).0);
        }
        loop
            invariant
                s0 == old(self).pending@ + chunk@,
                spec_process(s0).0 == inds.deep_view() + spec_process(self.pending@).0,
                spec_process(s0).1 == spec_process(self.pending@).1,
                spec_process(s0).2 == spec_process(self.pending@).2,
            decreases self.pending@.len(),
        {
            let ghost before = self.pending@;
            let n = self.pending.len();
            let mut j: usize = 0;
            while j < n && !(self.pending[j] == 13 || self.pending[j] == 10 || self.pending[j]
                == 0)
                invariant
                    self.pending@ == before,
                    n == before.len(),
                    0 <= j <= n,
                    forall|k2: int| 0 <= k2 < j ==> !is_break(#[trigger] before[k2]),
                decreases n - j,
            {
                j = j + 1;
            }
            proof {
                lemma_find_break_at(before, j as int);
            }
            if j < n {
                // A complete line ends at `j`.
                let line = subvec(&self.pending, 0, j);
                let rest = subvec(&self.pending, j + 1, n);
                proof {
                    assert(line@ =~= before.take(j as int));
                    assert(rest@ =~= before.skip(j + 1));
                }
                self.pending = rest;
                match classify_line(&line) {
                    LineClass::TerminalOk => {
                        proof {
                            assert(spec_process(s0).0 =~~= inds.deep_view());
                        }
                        return FeedOutcome { indications: inds, terminal: Some(Terminal::Success) };
                    },
                    LineClass::TerminalFailure(e) => {
                        proof {
                            assert(spec_process(s0).0 =~~= inds.deep_view());
                        }
                        return FeedOutcome {
                            indications: inds,
                            terminal: Some(Terminal::Failure(e)),
                        };
                    },
                    LineClass::Indication => {
                        let t = trim(&line);
                        if t.len() > 0 {
                            let ghost old_inds = inds.deep_view();
                            inds.push(t);
                            proof {
                                assert(inds.deep_view() =~~= old_inds.push(trim_spec(line@)));
                                assert(spec_process(s0).0 =~~= inds.deep_view() + spec_process(
                                    self.pending@,
                                ).0);
                            }
                        }
                    },
                }
            } else {
                // No complete line: recognise a bare terminal tail, else
                // keep the tail buffered for the next read.
                let t = trim(&self.pending);
                let ok = ok_vec();
                if crate::text::bytes_eq(t.as_slice(), ok.as_slice()) {
                    self.pending = Vec::new();
                    proof {
                        assert(self.pending@ =~= Seq::<u8>::empty());
                        assert(spec_process(s0).0 =~~= inds.deep_view());
                    }
                    return FeedOutcome { indications: inds, terminal: Some(Terminal::Success) };
                }
                let err = error_vec();
                if crate::text::bytes_eq(t.as_slice(), err.as_slice()) {
                    self.pending = Vec::new();
                    proof {
                        assert(self.pending@ =~= Seq::<u8>::empty());
                        assert(spec_process(s0).0 =~~= inds.deep_view());
                    }
                    return FeedOutcome {
                        indications: inds,
                        terminal: Some(Terminal::Failure(AtError::Error)),
                    };
                }
                proof {
                    assert(spec_process(s0).0 =~~= inds.deep_view());
                }
                return FeedOutcome { indications: inds, terminal: None };
            }
        }
    }
}

/// Represents a connection to the modem using AT commands.
#[derive(Debug)]
pub struct AtSocket {
    socket: Socket,
    parser: ResponseParser,
}

impl AtSocket {
    /// Create a new AT socket.
    pub fn new<B: Backend>(backend: &mut B) -> (r: Result<AtSocket, Error>)
        ensures
            r matches Err(e) ==> e matches Error::Nordic(op, code, _) && op@ == "new_socket"@
                && code < 0,
    {
        match Socket::new(backend, SocketDomain::Lte, SocketType::Datagram, SocketProtocol::At) {
            Ok(skt) => Ok(AtSocket { socket: skt, parser: ResponseParser::new() }),
            Err(e) => Err(e),
        }
    }

    /// Send an AT command to the modem.
    pub fn send_command<B: Backend>(&self, backend: &mut B, command: &str) -> (r: Result<
        (),
        Error,
    >)
        ensures
            r matches Err(e) ==> e matches Error::Nordic(op, code, _) && op@ == "write"@ && code
                < 0,
    {
        let bytes = str_bytes(command);
        match self.socket.write(backend, bytes.as_slice()) {
            Ok(_count) => Ok(()),
            Err(e) => Err(e),
        }
    }

    /// Send an already-marshalled AT command to the modem.
    pub fn send_command_bytes<B: Backend>(&self, backend: &mut B, command: &[u8]) -> (r: Result<
        (),
        Error,
    >)
        ensures
            r matches Err(e) ==> e matches Error::Nordic(op, code, _) && op@ == "write"@ && code
                < 0,
    {
        match self.socket.write(backend, command) {
            Ok(_count) => Ok(()),
            Err(e) => Err(e),
        }
    }

    /// Read from the AT socket until a line indicates that the command has
    /// completed.
    ///
    /// Every indication line is appended to `indications` -- trimmed, in
    /// arrival order -- as soon as it completes, whatever outcome follows,
    /// so nothing already surfaced is lost to a later failure.  Completion
    /// lines are classified by [`spec_classify_line`]: `OK` yields `Ok`;
    /// `ERROR`, `+CME ERROR: n` and `+CMS ERROR: n` yield the
    /// corresponding [`AtError`].  A read that would block waits on the
    /// backend's event signal and polls again, so the loop relies on the
    /// firmware eventually answering; what each received byte means is
    /// fixed by [`ResponseParser::feed`].  Should the retry budget ever
    /// run out, the exhausted re-polling is reported as one more
    /// would-block read failure.
    pub fn poll_response<B: Backend>(
        &mut self,
        backend: &mut B,
        indications: &mut Vec<Vec<u8>>,
    ) -> (r: Result<(), Error>)
        ensures
            r matches Err(e) ==> (e matches Error::AtError(_)) || (e matches Error::Nordic(
                op,
                code,
                _,
            ) && op@ == "recv"@ && code < 0),
            final(indications)@.len() >= old(indications)@.len(),
            forall|j: int|
                0 <= j < old(indications)@.len() ==> #[trigger] final(indications)@[j] == old(
                    indications,
                )@[j],
    {
        // The retry budget only gives the re-poll loop a termination
        // measure; at one wait per retry it cannot run out in practice.
        let mut budget: u64 = RETRY_BUDGET;
        while budget > 0
            invariant
                indications@.len() >= old(indications)@.len(),
                forall|j: int|
                    0 <= j < old(indications)@.len() ==> #[trigger] indications@[j] == old(
                        indications,
                    )@[j],
            decreases budget,
        {
            budget = budget - 1;
            let data = match self.socket.recv(backend, 256) {
                Ok(Some(d)) => d,
                Ok(None) => {
                    backend.wait_for_event();
                    continue ;
                },
                Err(e) => {
                    return Err(e);
                },
            };
            let outcome = self.parser.feed(data.as_slice());
            let mut i: usize = 0;
            let m = outcome.indications.len();
            while i < m
                invariant
                    0 <= i <= m,
                    m == outcome.indications@.len(),
                    indications@.len() >= old(indications)@.len(),
                    forall|j: int|
                        0 <= j < old(indications)@.len() ==> #[trigger] indications@[j] == old(
                            indications,
                        )@[j],
                decreases m - i,
            {
                let line = subvec(&outcome.indications[i], 0, outcome.indications[i].len());
                indications.push(line);
                i = i + 1;
            }
            match outcome.terminal {
                Some(Terminal::Success) => {
                    return Ok(());
                },
                Some(Terminal::Failure(e)) => {
                    return Err(Error::AtError(e));
                },
                None => {},
            }
        }
        Err(Error::Nordic("recv", -1, crate::raw::NRF_EAGAIN))
    }

    /// Close the AT socket.
    pub fn close<B: Backend>(self, backend: &mut B) {
        self.socket.close(backend);
    }
}

impl crate::raw::Pollable for AtSocket {
    /// Get the underlying socket descriptor for this socket.
    fn get_fd(&self) -> i32 {
        self.socket.fd
    }
}

/// Send an AT command to the modem and collect the indication lines
/// received before the terminal line, trimmed, in order.
///
/// Creates and destroys a new AT socket.  Blocks until the modem answers
/// `OK` (the indications are returned) or some terminal error (returned as
/// [`Error::AtError`]).
pub fn send_at_command<B: Backend>(backend: &mut B, command: &str) -> (r: Result<
    Vec<Vec<u8>>,
    Error,
>)
    ensures
        r matches Err(e) ==> (e matches Error::AtError(_)) || (e matches Error::Nordic(
            op,
            code,
            _,
        ) && code < 0),
{
    let mut skt = match AtSocket::new(backend) {
        Ok(s) => s,
        Err(e) => {
            return Err(e);
        },
    };
    match skt.send_command(backend, command) {
        Ok(()) => {},
        Err(e) => {
            skt.close(backend);
            return Err(e);
        },
    }
    let mut lines: Vec<Vec<u8>> = Vec::new();
    let result = skt.poll_response(backend, &mut lines);
    skt.close(backend);
    match result {
        Ok(()) => Ok(lines),
        Err(e) => Err(e),
    }
}

/// Line-order law, indication case: a stream that starts with a complete
/// non-terminal line delivers exactly that line -- trimmed, and never
/// reinterpreted as terminal -- before everything the rest of the stream
/// delivers, and the rest's terminal outcome and buffered tail are
/// untouched.  Applied line by line, this fixes that indications are
/// relayed in their original order.
pub proof fn lemma_indication_line_first(line: Seq<u8>, brk: u8, rest: Seq<u8>)
    requires
        forall|k: int| 0 <= k < line.len() ==> !is_break(#[trigger] line[k]),
        is_break(brk),
        spec_classify_line(line) is Indication,
        trim_spec(line).len() > 0,
    ensures
        spec_process(line + seq![brk] + rest).0 == seq![trim_spec(line)] + spec_process(rest).0,
        spec_process(line + seq![brk] + rest).1 == spec_process(rest).1,
        spec_process(line + seq![brk] + rest).2 == spec_process(rest).2,
{
    let s = line + seq![brk] + rest;
    let i = line.len() as int;
    assert forall|k: int| 0 <= k < i implies !is_break(#[trigger] s[k]) by {
        assert(s[k] == line[k]);
    }
    assert(is_break(s[i]));
    lemma_find_break_at(s, i);
    assert(s.take(i) =~= line);
    assert(s.skip(i + 1) =~= rest);
    assert(spec_process(s).0 =~~= seq![trim_spec(line)] + spec_process(rest).0);
}

/// Line-order law, terminal case: a stream that starts with a complete
/// terminal line ends the exchange right there with that line's
/// classification; the terminal line itself is never delivered as an
/// indication, and the bytes after it stay buffered untouched.
pub proof fn lemma_terminal_line_first(line: Seq<u8>, brk: u8, rest: Seq<u8>)
    requires
        forall|k: int| 0 <= k < line.len() ==> !is_break(#[trigger] line[k]),
        is_break(brk),
        !(spec_classify_line(line) is Indication),
    ensures
        spec_process(line + seq![brk] + rest).0 == Seq::<Seq<u8>>::empty(),
        spec_process(line + seq![brk] + rest).1 == (match spec_classify_line(line) {
            LineClass::TerminalOk => Some(Terminal::Success),
            LineClass::TerminalFailure(e) => Some(Terminal::Failure(e)),
            LineClass::Indication => None::<Terminal>,
        }),
        spec_process(line + seq![brk] + rest).2 == rest,
{
    let s = line + seq![brk] + rest;
    let i = line.len() as int;
    assert forall|k: int| 0 <= k < i implies !is_break(#[trigger] s[k]) by {
        assert(s[k] == line[k]);
    }
    assert(is_break(s[i]));
    lemma_find_break_at(s, i);
    assert(s.take(i) =~= line);
    assert(s.skip(i + 1) =~= rest);
}

/// Partial-read reassembly law: as long as the bytes seen so far have
/// reached no terminal outcome, feeding a stream in two pieces sees
/// exactly what feeding it whole would see -- the indications in the same
/// order, the same terminal outcome, and the same buffered tail.  Nothing
/// is lost between reads, and a terminal line split across reads is
/// classified once its remaining bytes arrive.
pub proof fn lemma_partial_reads_compose(s: Seq<u8>, t: Seq<u8>)
    requires
        spec_process(s).1 is None,
    ensures
        spec_process(s + t).0 == spec_process(s).0 + spec_process(spec_process(s).2 + t).0,
        spec_process(s + t).1 == spec_process(spec_process(s).2 + t).1,
        spec_process(s + t).2 == spec_process(spec_process(s).2 + t).2,
    decreases s.len(),
{
    lemma_find_break_bounds(s);
    match find_break(s) {
        None => {
            // No complete line in `s`, and its tail is not a bare
            // terminal (the outcome would not be `None`), so everything
            // stays buffered: the left piece contributes nothing yet.
            assert(spec_process(s).2 == s);
            assert(spec_process(s).0 =~~= Seq::<Seq<u8>>::empty());
            assert(spec_process(s + t).0 =~~= spec_process(s).0 + spec_process(
                spec_process(s).2 + t,
            ).0);
        },
        Some(i) => {
            // The first complete line of `s` is also the first of the
            // combined stream.
            assert forall|k: int| 0 <= k < i implies !is_break(#[trigger] (s + t)[k]) by {
                assert((s + t)[k] == s[k]);
            }
            assert(is_break((s + t)[i]));
            lemma_find_break_at(s + t, i);
            assert((s + t).take(i) =~= s.take(i));
            assert((s + t).skip(i + 1) =~= s.skip(i + 1) + t);
            let line = s.take(i);
            let rest = s.skip(i + 1);
            match spec_classify_line(line) {
                LineClass::TerminalOk => {
                    assert(false);
                },
                LineClass::TerminalFailure(_e) => {
                    assert(false);
                },
                LineClass::Indication => {
                    assert(spec_process(rest).1 is None);
                    lemma_partial_reads_compose(rest, t);
                    let tl = trim_spec(line);
                    if tl.len() == 0 {
                        assert(spec_process(s + t).0 =~~= spec_process(s).0 + spec_process(
                            spec_process(s).2 + t,
                        ).0);
                    } else {
                        assert(spec_process(s + t).0 =~~= (seq![tl] + spec_process(rest).0)
                            + spec_process(spec_process(rest).2 + t).0);
                        assert(spec_process(s).0 + spec_process(spec_process(s).2 + t).0 =~~= (
                        seq![tl] + spec_process(rest).0) + spec_process(
                            spec_process(rest).2 + t,
                        ).0);
                    }
                },
            }
        },
    }
}

} // verus!

