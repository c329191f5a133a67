//! The host message channel: framing of the half-duplex command/response
//! protocol spoken over the serial link. Raw transport bytes come in and go
//! out through the caller; everything between — delimiting, argument
//! splitting, tagged-line formatting, the single-borrower discipline — is
//! here.

use vstd::prelude::*;
use vstd::string::StringSliceAdditionalSpecFns;
use crate::error::ErrorKind;

verus! {

/// Carriage return, the line terminator of the serial protocol.
pub const CR: u8 = 13;

/// Line feed, used in the wire form of response lines.
pub const NL: u8 = 10;

/// The single-space argument separator.
pub const SP: u8 = 32;

/// One response line of the host protocol, as structured data. `render`
/// gives its wire form.
pub enum Msg {
    Error(Vec<u8>),
    Success(Vec<u8>),
    Info(Vec<u8>),
    Debug(Vec<u8>),
    Ack,
}

/// The mathematical shape of a response line: the same tags over byte
/// sequences, so that contracts can state whole outputs.
pub enum MsgView {
    Error(Seq<u8>),
    Success(Seq<u8>),
    Info(Seq<u8>),
    Debug(Seq<u8>),
    Ack,
}

impl View for Msg {
    type V = MsgView;

    open spec fn view(&self) -> MsgView {
        match self {
            Msg::Error(t) => MsgView::Error(t@),
            Msg::Success(t) => MsgView::Success(t@),
            Msg::Info(t) => MsgView::Info(t@),
            Msg::Debug(t) => MsgView::Debug(t@),
            Msg::Ack => MsgView::Ack,
        }
    }
}

impl MsgView {
    /// True of `%error: ...%` lines.
    pub open spec fn is_error(self) -> bool {
        self is Error
    }

    /// True of the two tags that may terminate a command.
    pub open spec fn is_terminal(self) -> bool {
        self is Error || self is Success
    }
}

/// The views of a whole output, line by line.
pub open spec fn views_of(s: Seq<Msg>) -> Seq<MsgView> {
    s.map_values(|m: Msg| m@)
}

/// The wire form of a response line: `%<tag>: <text>%` and a line feed, or
/// the bare `%ack%` acknowledgment.
pub open spec fn spec_render(m: Msg) -> Seq<u8> {
    match m {
        Msg::Error(t) => "%error: ".spec_bytes() + t@ + "%\n".spec_bytes(),
        Msg::Success(t) => "%success: ".spec_bytes() + t@ + "%\n".spec_bytes(),
        Msg::Info(t) => "%info: ".spec_bytes() + t@ + "%\n".spec_bytes(),
        Msg::Debug(t) => "%debug: ".spec_bytes() + t@ + "%\n".spec_bytes(),
        Msg::Ack => "%ack%\n".spec_bytes(),
    }
}

/// Appends one byte vector to another.
pub fn append_bytes(dst: &mut Vec<u8>, src: &Vec<u8>)
    ensures
        final(dst)@ == old(dst)@ + src@,
{
    let mut k: usize = 0;
    while k < src.len()
        invariant
            0 <= k <= src@.len(),
            dst@ == old(dst)@ + src@.subrange(0, k as int),
        decreases src@.len() - k,
    {
        let ghost prev: Seq<u8> = dst@;
        dst.push(src[k]);
        proof {
            assert(prev.push(src@[k as int]) =~= old(dst)@ + src@.subrange(0, k + 1));
        }
        k = k + 1;
    }
    proof {
        assert(old(dst)@ + src@.subrange(0, src@.len() as int) =~= old(dst)@ + src@);
    }
}

/// Copies the byte range `[from, to)` out of a vector.
pub fn copy_range(v: &Vec<u8>, from: usize, to: usize) -> (r: Vec<u8>)
    requires
        from <= to <= v@.len(),
    ensures
        r@ == v@.subrange(from as int, to as int),
{
    let mut r: Vec<u8> = Vec::new();
    let mut k: usize = from;
    while k < to
        invariant
            from <= k <= to <= v@.len(),
            r@ == v@.subrange(from as int, k as int),
        decreases to - k,
    {
        let ghost prev: Seq<u8> = r@;
        r.push(v[k]);
        proof {
            assert(prev.push(v@[k as int]) =~= v@.subrange(from as int, k + 1));
        }
        k = k + 1;
    }
    r
}

/// Byte-for-byte comparison of two byte vectors.
pub fn bytes_eq(a: &Vec<u8>, b: &Vec<u8>) -> (r: bool)
    ensures
        r == (a@ == b@),
{
    if a.len() != b.len() {
        return false;
    }
    let mut k: usize = 0;
    while k < a.len()
        invariant
            0 <= k <= a@.len(),
            a@.len() == b@.len(),
            forall|i: int| 0 <= i < k ==> a@[i] == b@[i],
        decreases a@.len() - k,
    {
        if a[k] != b[k] {
            return false;
        }
        k = k + 1;
    }
    proof {
        assert(a@ =~= b@);
    }
    true
}

impl Msg {
    /// The wire form of this line.
    pub fn render(&self) -> (r: Vec<u8>)
        ensures
            r@ == spec_render(*self),
    {
        let close = ("%\n").as_bytes_vec();
        match self {
            Msg::Error(t) => {
                let mut out = ("%error: ").as_bytes_vec();
                append_bytes(&mut out, t);
                append_bytes(&mut out, &close);
                out
            },
            Msg::Success(t) => {
                let mut out = ("%success: ").as_bytes_vec();
                append_bytes(&mut out, t);
                append_bytes(&mut out, &close);
                out
            },
            Msg::Info(t) => {
                let mut out = ("%info: ").as_bytes_vec();
                append_bytes(&mut out, t);
                append_bytes(&mut out, &close);
                out
            },
            Msg::Debug(t) => {
                let mut out = ("%debug: ").as_bytes_vec();
                append_bytes(&mut out, t);
                append_bytes(&mut out, &close);
                out
            },
            Msg::Ack => ("%ack%\n").as_bytes_vec(),
        }
    }
}

/// The transcript echo: what an outbound text becomes on the debug console,
/// where every line feed turns into a line feed, a carriage return and the
/// board's echo prefix. This is presentation only; it never changes the
/// tagged-line grammar.
pub open spec fn spec_expand(text: Seq<u8>, echo: Seq<u8>) -> Seq<u8>
    decreases text.len(),
{
    if text.len() == 0 {
        Seq::empty()
    } else {
        spec_expand(text.drop_last(), echo) + (if text.last() == NL {
            seq![NL, CR] + echo
        } else {
            seq![text.last()]
        })
    }
}

/// Rewrites an outbound text for the debug transcript; an empty echo prefix
/// gives the release form (a bare carriage return after each line feed).
pub fn expand_newlines(text: &Vec<u8>, echo: &Vec<u8>) -> (r: Vec<u8>)
    ensures
        r@ == spec_expand(text@, echo@),
{
    let mut out: Vec<u8> = Vec::new();
    let mut k: usize = 0;
    while k < text.len()
        invariant
            0 <= k <= text@.len(),
            out@ == spec_expand(text@.subrange(0, k as int), echo@),
        decreases text@.len() - k,
    {
        proof {
            assert(text@.subrange(0, k + 1).drop_last() =~= text@.subrange(0, k as int));
            assert(text@.subrange(0, k + 1).last() == text@[k as int]);
        }
        if text[k] == NL {
            out.push(NL);
            out.push(CR);
            append_bytes(&mut out, echo);
            proof {
                assert(out@ =~= spec_expand(text@.subrange(0, k as int), echo@) + (seq![NL, CR]
                    + echo@));
            }
        } else {
            out.push(text[k]);
            proof {
                assert(out@ =~= spec_expand(text@.subrange(0, k as int), echo@)
                    + seq![text@[k as int]]);
            }
        }
        k = k + 1;
    }
    proof {
        assert(text@.subrange(0, text@.len() as int) =~= text@);
    }
    out
}

/// Reads one solicited argument: at most `buffer.len()` bytes of `input` up
/// to (not including) the first carriage return, written into the front of
/// `buffer`. An argument longer than the buffer is silently truncated — this
/// reader has no overflow signal, unlike `read_line`.
pub fn read_arg(input: &Vec<u8>, buffer: &mut Vec<u8>) -> (count: usize)
    ensures
        final(buffer)@.len() == old(buffer)@.len(),
        count <= old(buffer)@.len(),
        count <= input@.len(),
        forall|i: int|
            0 <= i < count ==> final(buffer)@[i] == input@[i] && input@[i] != CR,
        forall|i: int|
            count <= i < old(buffer)@.len() ==> final(buffer)@[i] == old(buffer)@[i],
        count < old(buffer)@.len() && count < input@.len() ==> input@[count as int] == CR,
{
    let mut i: usize = 0;
    while i < buffer.len() && i < input.len() && input[i] != CR
        invariant
            0 <= i <= buffer@.len(),
            i <= input@.len(),
            buffer@.len() == old(buffer)@.len(),
            forall|k: int| 0 <= k < i ==> buffer@[k] == input@[k] && input@[k] != CR,
            forall|k: int| i <= k < buffer@.len() ==> buffer@[k] == old(buffer)@[k],
        decreases buffer@.len() - i,
    {
        buffer.set(i, input[i]);
        i = i + 1;
    }
    i
}

/// Reads one whole command line: bytes of `input` up to the first carriage
/// return, written into the front of `buffer`. Fails with `Overflow` — and
/// the buffer contents must not be trusted — exactly when no terminator
/// appears before the buffer is full (or the input runs out).
pub fn read_line(input: &Vec<u8>, buffer: &mut Vec<u8>) -> (r: Result<usize, ErrorKind>)
    ensures
        final(buffer)@.len() == old(buffer)@.len(),
        match r {
            Ok(count) => count < old(buffer)@.len() && count < input@.len()
                && input@[count as int] == CR
                && (forall|i: int|
                    0 <= i < count ==> final(buffer)@[i] == input@[i] && input@[i] != CR)
                && (forall|i: int|
                    count <= i < old(buffer)@.len() ==> final(buffer)@[i] == old(buffer)@[i]),
            Err(e) => e == ErrorKind::Overflow && forall|i: int|
                0 <= i < old(buffer)@.len() && i < input@.len() ==> input@[i] != CR,
        },
{
    let mut i: usize = 0;
    while i < buffer.len() && i < input.len() && input[i] != CR
        invariant
            0 <= i <= buffer@.len(),
            i <= input@.len(),
            buffer@.len() == old(buffer)@.len(),
            forall|k: int| 0 <= k < i ==> buffer@[k] == input@[k] && input@[k] != CR,
            forall|k: int| i <= k < buffer@.len() ==> buffer@[k] == old(buffer)@[k],
        decreases buffer@.len() - i,
    {
        buffer.set(i, input[i]);
        i = i + 1;
    }
    if i < buffer.len() && i < input.len() {
        Ok(i)
    } else {
        Err(ErrorKind::Overflow)
    }
}

/// Index of the first separator byte, or the length when there is none.
pub open spec fn sep_index(s: Seq<u8>) -> int
    decreases s.len(),
{
    if s.len() == 0 {
        0
    } else if s.first() == SP {
        0
    } else {
        1 + sep_index(s.drop_first())
    }
}

/// The line with its leading separators collapsed; only there do
/// consecutive separators collapse.
pub open spec fn skip_leading(s: Seq<u8>) -> Seq<u8>
    decreases s.len(),
{
    if s.len() > 0 && s.first() == SP {
        skip_leading(s.drop_first())
    } else {
        s
    }
}

/// Splits an argument span into at most `n` arguments on single separators.
/// Once the last allowed argument is reached its boundary extends to the end
/// of the span: later tokens are swallowed, never truncated.
pub open spec fn spec_split_args(s: Seq<u8>, n: nat) -> Seq<Seq<u8>>
    decreases n,
{
    if s.len() == 0 {
        Seq::empty()
    } else if n <= 1 {
        seq![s]
    } else {
        let k = sep_index(s);
        if k == s.len() {
            seq![s]
        } else {
            seq![s.subrange(0, k)] + spec_split_args(s.subrange(k + 1, s.len() as int), (n - 1) as nat)
        }
    }
}

/// The command word of a line: the first token after any leading separators.
pub open spec fn spec_command_word(line: Seq<u8>) -> Seq<u8> {
    let t = skip_leading(line);
    t.subrange(0, sep_index(t))
}

/// The argument span of a line: everything after the separator that ends the
/// command word.
pub open spec fn spec_args_span(line: Seq<u8>) -> Seq<u8> {
    let t = skip_leading(line);
    let k = sep_index(t);
    if k == t.len() {
        Seq::empty()
    } else {
        t.subrange(k + 1, t.len() as int)
    }
}

/// The arguments of a command line: its span split into at most `n` pieces.
pub open spec fn spec_parse_arguments(line: Seq<u8>, n: nat) -> Seq<Seq<u8>> {
    spec_split_args(spec_args_span(line), n)
}

/// `sep_index` is exactly the position of the first separator.
proof fn lemma_sep_index_is_first(s: Seq<u8>, j: int)
    requires
        0 <= j <= s.len(),
        forall|i: int| 0 <= i < j ==> s[i] != SP,
        j < s.len() ==> s[j] == SP,
    ensures
        sep_index(s) == j,
    decreases j,
{
    if j > 0 {
        lemma_sep_index_is_first(s.drop_first(), j - 1);
    }
}

/// Dropping one leading separator does not change the collapsed line.
proof fn lemma_skip_leading_step(s: Seq<u8>, start: int)
    requires
        0 <= start <= s.len(),
        forall|i: int| 0 <= i < start ==> s[i] == SP,
    ensures
        skip_leading(s) == skip_leading(s.subrange(start, s.len() as int)),
    decreases start,
{
    if start > 0 {
        lemma_skip_leading_step(s.drop_first(), start - 1);
        assert(s.drop_first().subrange(start - 1, s.drop_first().len() as int) =~= s.subrange(
            start,
            s.len() as int,
        ));
    } else {
        assert(s.subrange(0, s.len() as int) =~= s);
    }
}

/// Splits a command line into its up-to-`max_args` arguments, the command
/// word itself excluded. The last argument swallows any remainder of the
/// line, separators included.
pub fn parse_arguments(line: &Vec<u8>, max_args: usize) -> (r: Vec<Vec<u8>>)
    requires
        max_args >= 1,
    ensures
        r@.map_values(|v: Vec<u8>| v@) == spec_parse_arguments(line@, max_args as nat),
        r@.len() <= max_args,
{
    // Collapse the leading separators.
    let mut start: usize = 0;
    while start < line.len() && line[start] == SP
        invariant
            0 <= start <= line@.len(),
            forall|i: int| 0 <= i < start ==> line@[i] == SP,
        decreases line@.len() - start,
    {
        start = start + 1;
    }
    proof {
        lemma_skip_leading_step(line@, start as int);
        let t = line@.subrange(start as int, line@.len() as int);
        assert(skip_leading(line@) == t);
    }
    let ghost t: Seq<u8> = skip_leading(line@);
    // Find the separator that ends the command word.
    let mut j: usize = start;
    while j < line.len() && line[j] != SP
        invariant
            start <= j <= line@.len(),
            forall|i: int| start <= i < j ==> line@[i] != SP,
        decreases line@.len() - j,
    {
        j = j + 1;
    }
    proof {
        lemma_sep_index_is_first(t, j - start);
    }
    let mut rest: Vec<u8>;
    if j == line.len() {
        rest = Vec::new();
        proof {
            assert(spec_args_span(line@) =~= rest@);
        }
    } else {
        rest = copy_range(line, j + 1, line.len());
        proof {
            assert(t.subrange(j - start + 1, t.len() as int) =~= line@.subrange(
                j + 1,
                line@.len() as int,
            ));
        }
    }
    let ghost span: Seq<u8> = spec_args_span(line@);
    // Split the span, the last argument swallowing the remainder.
    let mut out: Vec<Vec<u8>> = Vec::new();
    let mut left: usize = max_args;
    let mut done: bool = false;
    while !done
        invariant
            1 <= left <= max_args,
            !done ==> out@.len() + left == max_args,
            done ==> out@.len() <= max_args && rest@.len() == 0,
            out@.map_values(|v: Vec<u8>| v@) + spec_split_args(rest@, left as nat)
                =~= spec_split_args(span, max_args as nat),
        decreases (if done { 0int } else { rest@.len() + left + 1 }),
    {
        let ghost out_prev: Seq<Seq<u8>> = out@.map_values(|v: Vec<u8>| v@);
        if rest.len() == 0 {
            done = true;
        } else if left == 1 {
            let ghost piece: Seq<u8> = rest@;
            out.push(rest);
            rest = Vec::new();
            done = true;
            proof {
                assert(out@.map_values(|v: Vec<u8>| v@) =~= out_prev.push(piece));
            }
        } else {
            // Find the next separator inside the span.
            let mut k: usize = 0;
            while k < rest.len() && rest[k] != SP
                invariant
                    0 <= k <= rest@.len(),
                    forall|i: int| 0 <= i < k ==> rest@[i] != SP,
                decreases rest@.len() - k,
            {
                k = k + 1;
            }
            proof {
                lemma_sep_index_is_first(rest@, k as int);
            }
            if k == rest.len() {
                let ghost piece: Seq<u8> = rest@;
                out.push(rest);
                rest = Vec::new();
                done = true;
                proof {
                    assert(out@.map_values(|v: Vec<u8>| v@) =~= out_prev.push(piece));
                }
            } else {
                let head = copy_range(&rest, 0, k);
                let tail = copy_range(&rest, k + 1, rest.len());
                let ghost piece: Seq<u8> = head@;
                out.push(head);
                rest = tail;
                left = left - 1;
                proof {
                    assert(out@.map_values(|v: Vec<u8>| v@) =~= out_prev.push(piece));
                }
            }
        }
    }
    proof {
        assert(spec_split_args(rest@, left as nat) =~= Seq::<Seq<u8>>::empty());
        assert(out@.map_values(|v: Vec<u8>| v@) =~= spec_split_args(span, max_args as nat));
    }
    out
}

/// The single-borrower discipline on the serial transport: at most one live
/// handle at a time; a second request while one is outstanding fails closed
/// instead of aliasing. The handle must be released on every exit path.
pub struct UartGuard {
    pub taken: bool,
}

impl UartGuard {
    /// A fresh guard with no outstanding handle.
    pub fn new() -> (r: UartGuard)
        ensures
            !r.taken,
    {
        UartGuard { taken: false }
    }

    /// Requests the transport handle; grants it only when none is live.
    pub fn acquire(&mut self) -> (granted: bool)
        ensures
            final(self).taken,
            granted == !old(self).taken,
    {
        if self.taken {
            false
        } else {
            self.taken = true;
            true
        }
    }

    /// Releases the handle; must run on every exit path of a borrower.
    pub fn release(&mut self)
        ensures
            !final(self).taken,
    {
        self.taken = false;
    }
}

} // verus!
