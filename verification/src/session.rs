//! Decisions of the interactive send loop.
//!
//! The loop itself performs terminal and radio I/O and therefore lives
//! outside of this library; it reports what the terminal returned as a
//! [`LineEvent`] and carries out the [`SendAction`] decided here.

use vstd::prelude::*;

verus! {

/// The literal input that ends the send loop.
pub open spec fn exit_word() -> Seq<u8> {
    crate::text::ascii_bytes("exit"@)
}

/// The second literal input that ends the send loop.
pub open spec fn quit_word() -> Seq<u8> {
    crate::text::ascii_bytes("quit"@)
}

/// A line is one of the two exit commands: `exit` or `quit`, compared
/// exactly and case-sensitively.
pub open spec fn is_exit_line(l: Seq<u8>) -> bool {
    l == exit_word() || l == quit_word()
}

/// What the terminal reported when asked for the next line.
#[derive(Debug, PartialEq, Eq)]
pub enum LineEvent {
    /// A complete line, without its terminator.
    Line(Vec<u8>),
    /// The operator sent an interrupt signal.
    Interrupted,
    /// The input stream ended.
    EndOfInput,
    /// The line editor failed in some other way.
    Failed,
}

/// The mathematical model of a [`LineEvent`].
pub enum LineEventModel {
    Line(Seq<u8>),
    Interrupted,
    EndOfInput,
    Failed,
}

impl View for LineEvent {
    type V = LineEventModel;

    open spec fn view(&self) -> LineEventModel {
        match self {
            LineEvent::Line(l) => LineEventModel::Line(l@),
            LineEvent::Interrupted => LineEventModel::Interrupted,
            LineEvent::EndOfInput => LineEventModel::EndOfInput,
            LineEvent::Failed => LineEventModel::Failed,
        }
    }
}

/// Why the send loop stopped.  None of these is a fatal error: the loop
/// ends and the process exits gracefully.
#[derive(Clone, Copy, Debug, PartialEq, Eq, Structural)]
pub enum StopReason {
    /// The operator typed one of the exit commands.
    Requested,
    /// The operator sent an interrupt signal.
    Interrupted,
    /// The input stream ended.
    EndOfInput,
    /// The line editor failed.
    Failed,
}

/// What the send loop does next.
#[derive(Debug, PartialEq, Eq)]
pub enum SendAction {
    /// Transmit these bytes over the radio, then prompt again.
    Transmit(Vec<u8>),
    /// Leave the loop.
    Stop(StopReason),
}

/// The mathematical model of a [`SendAction`].
pub enum SendActionModel {
    Transmit(Seq<u8>),
    Stop(StopReason),
}

impl View for SendAction {
    type V = SendActionModel;

    open spec fn view(&self) -> SendActionModel {
        match self {
            SendAction::Transmit(b) => SendActionModel::Transmit(b@),
            SendAction::Stop(r) => SendActionModel::Stop(*r),
        }
    }
}

/// The payload transmitted for an accepted line: its bytes followed by
/// a single line feed.
pub open spec fn payload_of(l: Seq<u8>) -> Seq<u8> {
    l + seq![crate::text::newline()]
}

/// Decides whether a line is one of the exit commands.
pub fn is_exit_line_exec(l: &[u8]) -> (r: bool)
    ensures
        r == is_exit_line(l@),
{
    let exit_lit: &str = "exit";
    let quit_lit: &str = "quit";
    proof {
        reveal_strlit("exit");
        reveal_strlit("quit");
        assert(vstd::string::is_ascii(exit_lit));
        assert(vstd::string::is_ascii(quit_lit));
        vstd::string::is_ascii_spec_bytes(exit_lit);
        vstd::string::is_ascii_spec_bytes(quit_lit);
    }
    let e = exit_lit.as_bytes();
    let q = quit_lit.as_bytes();
    proof {
        assert(e@ =~= exit_word());
        assert(q@ =~= quit_word());
    }
    let is_exit = crate::text::bytes_eq(l, e);
    let is_quit = crate::text::bytes_eq(l, q);
    is_exit || is_quit
}

/// Decides one step of the send loop.
///
/// An exit command and every terminal signal stop the loop; the exit
/// commands themselves are never transmitted.  Every other line is
/// transmitted as its bytes followed by one line feed.
pub fn send_step(ev: LineEvent) -> (a: SendAction)
    ensures
        ev@ matches LineEventModel::Line(l) ==> {
            &&& is_exit_line(l) ==> a@ == SendActionModel::Stop(StopReason::Requested)
            &&& !is_exit_line(l) ==> a@ == SendActionModel::Transmit(payload_of(l))
        },
        ev@ == LineEventModel::Interrupted ==> a@ == SendActionModel::Stop(
            StopReason::Interrupted,
        ),
        ev@ == LineEventModel::EndOfInput ==> a@ == SendActionModel::Stop(StopReason::EndOfInput),
        ev@ == LineEventModel::Failed ==> a@ == SendActionModel::Stop(StopReason::Failed),
{
    match ev {
        LineEvent::Line(l) => {
            if is_exit_line_exec(l.as_slice()) {
                SendAction::Stop(StopReason::Requested)
            } else {
                let ghost l0 = l@;
                let mut payload = l;
                payload.push(10);
                proof {
                    assert(payload@ =~= payload_of(l0));
                }
                SendAction::Transmit(payload)
            }
        },
        LineEvent::Interrupted => SendAction::Stop(StopReason::Interrupted),
        LineEvent::EndOfInput => SendAction::Stop(StopReason::EndOfInput),
        LineEvent::Failed => SendAction::Stop(StopReason::Failed),
    }
}

/// The payloads a send session transmits for a sequence of input lines:
/// one payload per line before the first exit command, nothing from the
/// exit command on.
pub open spec fn spec_transmits(lines: Seq<Seq<u8>>) -> Seq<Seq<u8>>
    decreases lines.len(),
{
    if lines.len() == 0 {
        Seq::empty()
    } else if is_exit_line(lines.first()) {
        Seq::empty()
    } else {
        seq![payload_of(lines.first())] + spec_transmits(lines.drop_first())
    }
}

/// Appending a line to a session with no exit command extends its
/// transmissions by that line's payload, or ends them if it is an exit
/// command.
proof fn lemma_transmits_push(lines: Seq<Seq<u8>>, l: Seq<u8>)
    requires
        forall|i: int| 0 <= i < lines.len() ==> !is_exit_line(#[trigger] lines[i]),
    ensures
        spec_transmits(lines.push(l)) == if is_exit_line(l) {
            spec_transmits(lines)
        } else {
            spec_transmits(lines).push(payload_of(l))
        },
    decreases lines.len(),
{
    let p = lines.push(l);
    assert(p.first() == if lines.len() == 0 { l } else { lines.first() });
    if lines.len() == 0 {
        if is_exit_line(l) {
            assert(spec_transmits(p) =~~= spec_transmits(lines));
        } else {
            assert(p.drop_first() =~= Seq::<Seq<u8>>::empty());
            assert(spec_transmits(Seq::<Seq<u8>>::empty()) == Seq::<Seq<u8>>::empty());
            assert(spec_transmits(p) == seq![payload_of(l)] + spec_transmits(p.drop_first()));
            assert(spec_transmits(p) =~~= spec_transmits(lines).push(payload_of(l)));
        }
    } else {
        assert(p.first() == lines.first());
        assert(!is_exit_line(p.first()));
        assert(p.drop_first() =~= lines.drop_first().push(l));
        assert(forall|i: int|
            0 <= i < lines.drop_first().len() ==> !is_exit_line(
                #[trigger] lines.drop_first()[i],
            ));
        lemma_transmits_push(lines.drop_first(), l);
        if is_exit_line(l) {
            assert(spec_transmits(p) =~~= spec_transmits(lines));
        } else {
            assert(spec_transmits(p) =~~= spec_transmits(lines).push(payload_of(l)));
        }
    }
}

/// When no input line is an exit command, the session transmits exactly
/// one payload per input line, in order.
pub proof fn lemma_transmit_count(lines: Seq<Seq<u8>>)
    requires
        forall|i: int| 0 <= i < lines.len() ==> !is_exit_line(#[trigger] lines[i]),
    ensures
        spec_transmits(lines).len() == lines.len(),
        forall|i: int|
            0 <= i < lines.len() ==> #[trigger] spec_transmits(lines)[i] == payload_of(lines[i]),
    decreases lines.len(),
{
    if lines.len() > 0 {
        assert(forall|i: int|
            0 <= i < lines.drop_first().len() ==> !is_exit_line(
                #[trigger] lines.drop_first()[i],
            ));
        lemma_transmit_count(lines.drop_first());
        assert(forall|i: int|
            1 <= i < lines.len() ==> spec_transmits(lines)[i] == #[trigger] spec_transmits(
                lines.drop_first(),
            )[i - 1]);
    }
}

/// Runs the decision of the send loop over a whole sequence of input
/// lines and collects every payload it would transmit.
pub fn plan_transmissions(lines: &Vec<Vec<u8>>) -> (r: Vec<Vec<u8>>)
    ensures
        r.deep_view() == spec_transmits(lines.deep_view()),
{
    let ghost all = lines.deep_view();
    let mut r: Vec<Vec<u8>> = Vec::new();
    let mut i: usize = 0;
    while i < lines.len()
        invariant
            0 <= i <= lines@.len(),
            all == lines.deep_view(),
            all.len() == lines@.len(),
            forall|j: int| 0 <= j < i ==> !is_exit_line(#[trigger] all[j]),
            r.deep_view() == spec_transmits(all.subrange(0, i as int)),
        decreases lines@.len() - i,
    {
        proof {
            assert(all[i as int] == lines@[i as int]@);
        }
        let line = vstd::slice::slice_to_vec(lines[i].as_slice());
        match send_step(LineEvent::Line(line)) {
            SendAction::Transmit(payload) => {
                r.push(payload);
                proof {
                    lemma_transmits_push_subrange(all, i as int);
                    assert(r.deep_view() =~~= spec_transmits(all.subrange(0, i as int)).push(
                        payload_of(all[i as int]),
                    ));
                }
            },
            SendAction::Stop(_) => {
                proof {
                    lemma_transmits_exit_prefix(all, i as int);
                }
                return r;
            },
        }
        i = i + 1;
    }
    proof {
        assert(all.subrange(0, all.len() as int) =~= all);
    }
    r
}

/// The transmissions of a prefix extended by one more line.
proof fn lemma_transmits_push_subrange(all: Seq<Seq<u8>>, pos: int)
    requires
        0 <= pos < all.len(),
        forall|j: int| 0 <= j < pos ==> !is_exit_line(#[trigger] all[j]),
    ensures
        spec_transmits(all.subrange(0, pos + 1)) == if is_exit_line(all[pos]) {
            spec_transmits(all.subrange(0, pos))
        } else {
            spec_transmits(all.subrange(0, pos)).push(payload_of(all[pos]))
        },
{
    assert(all.subrange(0, pos + 1) =~= all.subrange(0, pos).push(all[pos]));
    assert(forall|j: int|
        0 <= j < pos ==> !is_exit_line(#[trigger] all.subrange(0, pos)[j]));
    lemma_transmits_push(all.subrange(0, pos), all[pos]);
}

/// Once an exit command is reached, the rest of the input changes
/// nothing: the whole session transmits what its prefix did.
proof fn lemma_transmits_exit_prefix(all: Seq<Seq<u8>>, pos: int)
    requires
        0 <= pos < all.len(),
        forall|j: int| 0 <= j < pos ==> !is_exit_line(#[trigger] all[j]),
        is_exit_line(all[pos]),
    ensures
        spec_transmits(all) == spec_transmits(all.subrange(0, pos)),
    decreases pos,
{
    if pos == 0 {
        assert(is_exit_line(all.first()));
        assert(spec_transmits(all) =~= spec_transmits(all.subrange(0, 0)));
    } else {
        assert(!is_exit_line(all.first()));
        let t = all.drop_first();
        assert(forall|j: int| 0 <= j < pos - 1 ==> !is_exit_line(#[trigger] t[j]));
        assert(t[pos - 1] == all[pos]);
        lemma_transmits_exit_prefix(t, pos - 1);
        assert(t.subrange(0, pos - 1) =~= all.subrange(0, pos).drop_first());
        assert(spec_transmits(all.subrange(0, pos)) == seq![payload_of(all.first())]
            + spec_transmits(all.subrange(0, pos).drop_first()));
        assert(spec_transmits(all) == seq![payload_of(all.first())] + spec_transmits(t));
    }
}

} // verus!
