//! The handshake frame and the two replies to it.
//!
//! A client opens with a single message: an optional zero byte, then up to
//! three fields separated by zero bytes: the user name on the client side,
//! the user name it claims on the server, and a terminal description.

use vstd::prelude::*;
use vstd::slice::slice_subrange;

verus! {

/// The byte that separates the fields of a handshake frame.
pub const SEPARATOR: u8 = 0;

/// The three fields of a handshake frame, as raw bytes.
#[derive(PartialEq, Eq, Debug)]
pub struct HandshakeFrame {
    pub client_user_hint: Vec<u8>,
    pub server_user_claim: Vec<u8>,
    pub terminal_spec: Vec<u8>,
}

/// What a [`HandshakeFrame`] holds, as mathematical sequences.
pub struct FrameView {
    pub client_user_hint: Seq<u8>,
    pub server_user_claim: Seq<u8>,
    pub terminal_spec: Seq<u8>,
}

impl View for HandshakeFrame {
    type V = FrameView;

    open spec fn view(&self) -> FrameView {
        FrameView {
            client_user_hint: self.client_user_hint@,
            server_user_claim: self.server_user_claim@,
            terminal_spec: self.terminal_spec@,
        }
    }
}

/// The part of a received buffer that holds the fields: the buffer itself,
/// less one leading zero byte if it starts with one.
pub open spec fn payload(buffer: Seq<u8>) -> Seq<u8> {
    if buffer.len() > 0 && buffer[0] == SEPARATOR {
        buffer.skip(1)
    } else {
        buffer
    }
}

/// Field number `n` (from 0) of `s` split at its zero bytes. A field that the
/// sequence does not reach is empty.
pub open spec fn field(s: Seq<u8>, n: nat) -> Seq<u8>
    decreases n,
{
    match s.index_of_first(SEPARATOR) {
        None => if n == 0 {
            s
        } else {
            Seq::empty()
        },
        Some(i) => if n == 0 {
            s.take(i)
        } else {
            field(s.skip(i + 1), (n - 1) as nat)
        },
    }
}

/// The frame that a received buffer decodes to.
pub open spec fn decode_spec(buffer: Seq<u8>) -> FrameView {
    FrameView {
        client_user_hint: field(payload(buffer), 0),
        server_user_claim: field(payload(buffer), 1),
        terminal_spec: field(payload(buffer), 2),
    }
}

/// Where the first separator of `s` is, given that `at` is a position with no
/// separator before it that either holds one or is the end of `s`.
pub proof fn lemma_first_separator(s: Seq<u8>, at: int)
    requires
        0 <= at <= s.len(),
        forall|j: int| 0 <= j < at ==> s[j] != SEPARATOR,
        at < s.len() ==> s[at] == SEPARATOR,
    ensures
        s.index_of_first(SEPARATOR) == (if at < s.len() {
            Some(at)
        } else {
            None
        }),
{
    s.index_of_first_ensures(SEPARATOR);
    if at < s.len() {
        assert(s.contains(SEPARATOR));
    } else {
        assert(!s.contains(SEPARATOR));
    }
}

/// Splits `s` at its first separator: the bytes before it, and the bytes
/// after it if there is one.
fn split_field(s: &[u8]) -> (r: (Vec<u8>, Option<&[u8]>))
    ensures
        r.0@ == field(s@, 0),
        match s@.index_of_first(SEPARATOR) {
            None => r.1 is None,
            Some(i) => r.1 matches Some(rest) && rest@ == s@.skip(i + 1),
        },
{
    let n: usize = s.len();
    let mut head: Vec<u8> = Vec::new();
    let mut i: usize = 0;
    while i < n && s[i] != SEPARATOR
        invariant
            n == s@.len(),
            i <= n,
            head@ == s@.take(i as int),
            forall|j: int| 0 <= j < i ==> s@[j] != SEPARATOR,
        decreases n - i,
    {
        head.push(s[i]);
        i = i + 1;
        assert(head@ =~= s@.take(i as int));
    }
    proof {
        lemma_first_separator(s@, i as int);
        assert(s@.take(n as int) =~= s@);
    }
    if i < n {
        let rest = slice_subrange(s, i + 1, n);
        assert(rest@ =~= s@.skip(i + 1));
        (head, Some(rest))
    } else {
        (head, None)
    }
}

/// Decodes a handshake frame. Every buffer decodes: a field that is missing
/// comes out empty, and what follows the third field is ignored.
pub fn decode(buffer: &[u8]) -> (frame: HandshakeFrame)
    ensures
        frame@ == decode_spec(buffer@),
{
    let n: usize = buffer.len();
    let start: usize = if n > 0 && buffer[0] == SEPARATOR {
        1
    } else {
        0
    };
    let body = slice_subrange(buffer, start, n);
    assert(body@ =~= payload(buffer@));
    proof {
        reveal_with_fuel(field, 3);
    }
    let (client_user_hint, after_hint) = split_field(body);
    let (server_user_claim, after_claim) = match after_hint {
        Some(rest) => split_field(rest),
        None => (Vec::new(), None),
    };
    let terminal_spec = match after_claim {
        Some(rest) => split_field(rest).0,
        None => Vec::new(),
    };
    HandshakeFrame { client_user_hint, server_user_claim, terminal_spec }
}

/// One zero byte: the mark at the start of a frame and of the greeting.
pub open spec fn separator_mark() -> Seq<u8> {
    seq![SEPARATOR]
}

/// The frame as a client sends it in full: a leading zero byte, then each
/// field followed by a zero byte.
pub open spec fn encode_spec(frame: FrameView) -> Seq<u8> {
    separator_mark() + frame.client_user_hint + separator_mark() + frame.server_user_claim
        + separator_mark() + frame.terminal_spec + separator_mark()
}

/// Serialises a handshake frame, in the form that [`encode_spec`] gives.
pub fn encode_handshake(frame: &HandshakeFrame) -> (bytes: Vec<u8>)
    ensures
        bytes@ == encode_spec(frame@),
{
    let mut bytes: Vec<u8> = Vec::new();
    bytes.push(SEPARATOR);
    bytes.extend_from_slice(frame.client_user_hint.as_slice());
    bytes.push(SEPARATOR);
    bytes.extend_from_slice(frame.server_user_claim.as_slice());
    bytes.push(SEPARATOR);
    bytes.extend_from_slice(frame.terminal_spec.as_slice());
    bytes.push(SEPARATOR);
    assert(bytes@ =~= encode_spec(frame@));
    bytes
}

/// Carriage return and line feed, which end both replies.
pub open spec fn line_end() -> Seq<u8> {
    seq![0x0Du8, 0x0Au8]
}

/// The text of the greeting: a golf flag (U+26F3 in UTF-8) and "Coucou".
pub open spec fn greeting_text() -> Seq<u8> {
    seq![
        0xE2u8, 0x9Bu8, 0xB3u8, 0x43u8, 0x6Fu8, 0x75u8, 0x63u8, 0x6Fu8, 0x75u8,
    ]
}

/// The text of the rejection: "Login incorrect."
pub open spec fn rejection_text() -> Seq<u8> {
    seq![
        0x4Cu8, 0x6Fu8, 0x67u8, 0x69u8, 0x6Eu8, 0x20u8, 0x69u8, 0x6Eu8, 0x63u8, 0x6Fu8, 0x72u8,
        0x72u8, 0x65u8, 0x63u8, 0x74u8, 0x2Eu8,
    ]
}

/// The reply to an accepted handshake: a zero byte, the greeting text, and
/// the line end.
pub open spec fn greeting_spec() -> Seq<u8> {
    separator_mark() + greeting_text() + line_end()
}

/// The reply to a refused handshake: the rejection text and the line end,
/// with no zero byte before it.
pub open spec fn rejection_spec() -> Seq<u8> {
    rejection_text() + line_end()
}

/// Builds the reply to an accepted handshake.
pub fn encode_greeting() -> (bytes: Vec<u8>)
    ensures
        bytes@ == greeting_spec(),
{
    let bytes: Vec<u8> = vec![
        0x00u8, 0xE2u8, 0x9Bu8, 0xB3u8, 0x43u8, 0x6Fu8, 0x75u8, 0x63u8, 0x6Fu8, 0x75u8, 0x0Du8,
        0x0Au8,
    ];
    assert(bytes@ =~= greeting_spec());
    bytes
}

/// Builds the reply to a refused handshake.
pub fn encode_rejection() -> (bytes: Vec<u8>)
    ensures
        bytes@ == rejection_spec(),
{
    let bytes: Vec<u8> = vec![
        0x4Cu8, 0x6Fu8, 0x67u8, 0x69u8, 0x6Eu8, 0x20u8, 0x69u8, 0x6Eu8, 0x63u8, 0x6Fu8, 0x72u8,
        0x72u8, 0x65u8, 0x63u8, 0x74u8, 0x2Eu8, 0x0Du8, 0x0Au8,
    ];
    assert(bytes@ =~= rejection_spec());
    bytes
}

/// How many fields `s` holds: the runs of bytes that its zero bytes end or
/// separate. A zero byte at the very end starts no further field.
pub open spec fn field_count(s: Seq<u8>) -> nat
    decreases s.len(),
{
    if s.len() == 0 {
        0
    } else {
        match s.index_of_first(SEPARATOR) {
            None => 1,
            Some(i) => if 0 <= i < s.len() {
                1 + field_count(s.skip(i + 1))
            } else {
                1
            },
        }
    }
}

/// A field holds no zero byte.
pub proof fn lemma_field_has_no_separator(s: Seq<u8>, n: nat)
    ensures
        !field(s, n).contains(SEPARATOR),
    decreases n,
{
    s.index_of_first_ensures(SEPARATOR);
    match s.index_of_first(SEPARATOR) {
        None => {},
        Some(i) => {
            if n == 0 {
                assert forall|j: int| 0 <= j < s.take(i).len() implies s.take(i)[j]
                    != SEPARATOR by {
                    assert(s.take(i)[j] == s[j]);
                }
            } else {
                lemma_field_has_no_separator(s.skip(i + 1), (n - 1) as nat);
            }
        },
    }
}

/// A field that the sequence does not reach decodes to the empty sequence.
pub proof fn lemma_missing_field_is_empty(s: Seq<u8>, n: nat)
    requires
        n >= field_count(s),
    ensures
        field(s, n) == Seq::<u8>::empty(),
    decreases n,
{
    s.index_of_first_ensures(SEPARATOR);
    if s.len() == 0 {
        assert(s =~= Seq::<u8>::empty());
    } else {
        match s.index_of_first(SEPARATOR) {
            None => {},
            Some(i) => {
                lemma_missing_field_is_empty(s.skip(i + 1), (n - 1) as nat);
            },
        }
    }
}

/// A frame that stops short still decodes. With at most two fields in the
/// buffer the terminal description is empty, and with at most one the claim
/// is empty too.
pub proof fn lemma_short_frame_decodes(buffer: Seq<u8>)
    ensures
        field_count(payload(buffer)) <= 2 ==> decode_spec(buffer).terminal_spec.len() == 0,
        field_count(payload(buffer)) <= 1 ==> decode_spec(buffer).server_user_claim.len() == 0,
{
    if field_count(payload(buffer)) <= 2 {
        lemma_missing_field_is_empty(payload(buffer), 2);
    }
    if field_count(payload(buffer)) <= 1 {
        lemma_missing_field_is_empty(payload(buffer), 1);
    }
}

/// Where `head` holds no zero byte, `head`, a zero byte and `tail` split
/// into `head` and the fields of `tail`.
pub proof fn lemma_fields_of_joined(head: Seq<u8>, tail: Seq<u8>, n: nat)
    requires
        !head.contains(SEPARATOR),
    ensures
        field(head + separator_mark() + tail, 0) == head,
        field(head + separator_mark() + tail, n + 1) == field(tail, n),
{
    let s = head + separator_mark() + tail;
    let at = head.len() as int;
    assert forall|j: int| 0 <= j < at implies s[j] != SEPARATOR by {
        assert(s[j] == head[j]);
        assert(head.contains(head[j]));
    }
    assert(s[at] == SEPARATOR);
    lemma_first_separator(s, at);
    assert(s.take(at) =~= head);
    assert(s.skip(at + 1) =~= tail);
}

/// Decoding undoes encoding: a frame whose fields hold no zero byte is read
/// back as it was written.
pub proof fn lemma_decode_inverts_encode(frame: FrameView)
    requires
        !frame.client_user_hint.contains(SEPARATOR),
        !frame.server_user_claim.contains(SEPARATOR),
        !frame.terminal_spec.contains(SEPARATOR),
    ensures
        decode_spec(encode_spec(frame)) == frame,
{
    let after_claim = frame.terminal_spec + separator_mark();
    let after_hint = frame.server_user_claim + separator_mark() + after_claim;
    let body = frame.client_user_hint + separator_mark() + after_hint;
    assert(encode_spec(frame) =~= separator_mark() + body);
    assert(payload(encode_spec(frame)) =~= body);
    lemma_fields_of_joined(frame.client_user_hint, after_hint, 0);
    lemma_fields_of_joined(frame.client_user_hint, after_hint, 1);
    lemma_fields_of_joined(frame.server_user_claim, after_claim, 0);
    assert(after_claim =~= frame.terminal_spec + separator_mark() + Seq::<u8>::empty());
    lemma_fields_of_joined(frame.terminal_spec, Seq::<u8>::empty(), 0);
}

} // verus!
