//! The Noise handshake patterns listed on Noise Explorer: the one-way,
//! the interactive (fundamental) and their PSK variants.

use vstd::prelude::*;

pub mod roles;

verus! {

/// A single token in a Noise message pattern (one step).
#[derive(PartialEq, Eq, Structural, Clone, Copy, Debug)]
pub enum Token {
    /// Generate and send an ephemeral public key to the buffer
    E,
    /// Append `encrypt_and_hash(s.public_key)` to the buffer
    S,
    /// Call `mix_key(DH(e, re))`
    EE,
    /// Call `mix_key(DH(e, rs))` or `mix_key(DH(s, re))` depending on the role
    ES,
    /// Call `mix_key(DH(s, re))` or `mix_key(DH(e, rs))` depending on the role
    SE,
    /// Call `mix_key(DH(s, rs))`
    SS,
    /// Call `mix_key_and_hash(psk)`
    PSK,
}

/// The sequence of [`Token`]s exchanged in a single handshake message.
pub struct MessagePattern {
    /// Tokens processed in order for this message
    pub tokens: &'static [Token],
}

/// The mathematical content of a [`HandshakePattern`]: the pre-message
/// tokens of each party and the token sequence of every message.
pub struct PatternSpec {
    /// Pre-message tokens known by the initiator before the handshake.
    pub pre_initiator: Seq<Token>,
    /// Pre-message tokens known by the responder before the handshake.
    pub pre_responder: Seq<Token>,
    /// The token sequence of each handshake message, in order.
    pub messages: Seq<Seq<Token>>,
}

/// The full definition of a Noise handshake: the pre-message keys of both
/// parties followed by the ordered sequence of handshake messages.
///
/// Messages alternate between initiator and responder, starting with the
/// initiator: `messages[0]` is sent by the initiator, `messages[1]` by the
/// responder, and so on.
#[derive(Copy, Clone)]
pub struct HandshakePattern {
    pre_messages_initiator: &'static [Token],
    pre_messages_responder: &'static [Token],
    messages: &'static [MessagePattern],
}

impl View for HandshakePattern {
    type V = PatternSpec;

    closed spec fn view(&self) -> PatternSpec {
        PatternSpec {
            pre_initiator: self.pre_messages_initiator@,
            pre_responder: self.pre_messages_responder@,
            messages: Seq::new(self.messages@.len(), |i: int| self.messages@[i].tokens@),
        }
    }
}

/// The number of occurrences of `t` in `tokens` from index `from` on.
pub open spec fn token_count(tokens: Seq<Token>, from: int, t: Token) -> nat
    decreases tokens.len() - from,
{
    if from < 0 || from >= tokens.len() {
        0
    } else {
        (if tokens[from] == t {
            1nat
        } else {
            0nat
        }) + token_count(tokens, from + 1, t)
    }
}

/// The number of occurrences of `t` in the messages from index `from` on
/// that the party `is_initiator` sends.
pub open spec fn sent_count(messages: Seq<Seq<Token>>, from: int, is_initiator: bool, t: Token) -> nat
    decreases messages.len() - from,
{
    if from < 0 || from >= messages.len() {
        0
    } else {
        (if sent_by_initiator(from) == is_initiator {
            token_count(messages[from], 0, t)
        } else {
            0nat
        }) + sent_count(messages, from + 1, is_initiator, t)
    }
}

/// Whether the message at index `i` is sent by the initiator.
pub open spec fn sent_by_initiator(i: int) -> bool {
    i % 2 == 0
}

impl PatternSpec {
    /// The pre-message tokens of the party `is_initiator`.
    pub open spec fn own_pre(self, is_initiator: bool) -> Seq<Token> {
        if is_initiator {
            self.pre_initiator
        } else {
            self.pre_responder
        }
    }

    /// The pre-message tokens of the peer of the party `is_initiator`.
    pub open spec fn peer_pre(self, is_initiator: bool) -> Seq<Token> {
        if is_initiator {
            self.pre_responder
        } else {
            self.pre_initiator
        }
    }

    /// Some message mixes in a pre-shared key.
    pub open spec fn has_psk(self) -> bool {
        exists|i: int| 0 <= i < self.messages.len() && #[trigger] self.messages[i].contains(Token::PSK)
    }

    /// The peer's static key is a pre-message for the party `is_initiator`.
    pub open spec fn peer_static_is_premessage(self, is_initiator: bool) -> bool {
        self.peer_pre(is_initiator).contains(Token::S)
    }

    /// The peer's ephemeral key is a pre-message for the party `is_initiator`.
    pub open spec fn peer_ephemeral_is_premessage(self, is_initiator: bool) -> bool {
        self.peer_pre(is_initiator).contains(Token::E)
    }

    /// The party `is_initiator` needs a local static key: it is one of its
    /// pre-messages, or it sends `s` in one of its own messages.
    pub open spec fn local_static_required(self, is_initiator: bool) -> bool {
        ||| self.own_pre(is_initiator).contains(Token::S)
        ||| exists|i: int|
            0 <= i < self.messages.len() && sent_by_initiator(i) == is_initiator
                && #[trigger] self.messages[i].contains(Token::S)
    }

    /// The party `is_initiator` needs a local ephemeral key before the
    /// handshake: it is one of its pre-messages.
    pub open spec fn local_ephemeral_required(self, is_initiator: bool) -> bool {
        self.own_pre(is_initiator).contains(Token::E)
    }

    /// The shape of every pattern of this crate: one to three messages;
    /// each pre-message names each of `e` and `s` at most once; and each
    /// party sends `e` at most once and `s` at most once over all its
    /// messages.
    pub open spec fn well_shaped(self) -> bool {
        &&& 1 <= self.messages.len() <= 3
        &&& token_count(self.pre_initiator, 0, Token::E) <= 1
        &&& token_count(self.pre_initiator, 0, Token::S) <= 1
        &&& token_count(self.pre_responder, 0, Token::E) <= 1
        &&& token_count(self.pre_responder, 0, Token::S) <= 1
        &&& sent_count(self.messages, 0, true, Token::E) <= 1
        &&& sent_count(self.messages, 0, true, Token::S) <= 1
        &&& sent_count(self.messages, 0, false, Token::E) <= 1
        &&& sent_count(self.messages, 0, false, Token::S) <= 1
    }

    /// The pre-messages hold only the tokens `e` and `s`.
    pub open spec fn pre_messages_wf(self) -> bool {
        &&& forall|i: int|
            0 <= i < self.pre_initiator.len() ==> (#[trigger] self.pre_initiator[i] == Token::E
                || self.pre_initiator[i] == Token::S)
        &&& forall|i: int|
            0 <= i < self.pre_responder.len() ==> (#[trigger] self.pre_responder[i] == Token::E
                || self.pre_responder[i] == Token::S)
    }
}

impl HandshakePattern {
    /// Returns `true` if this is a one-way pattern.
    pub fn is_oneway(&self) -> (r: bool)
        ensures
            r == (self@.messages.len() == 1),
    {
        self.messages.len() == 1
    }

    /// Returns the ordered sequence of handshake messages.
    pub fn messages(&self) -> (r: &'static [MessagePattern])
        ensures
            r@.len() == self@.messages.len(),
            forall|i: int| 0 <= i < r@.len() ==> #[trigger] r@[i].tokens@ == self@.messages[i],
    {
        self.messages
    }

    /// Returns the pre-message tokens known by the initiator before the
    /// handshake begins.
    pub fn initiator_pre_messages(&self) -> (r: &'static [Token])
        ensures
            r@ == self@.pre_initiator,
    {
        self.pre_messages_initiator
    }

    /// Returns the pre-message tokens known by the responder before the
    /// handshake begins.
    pub fn responder_pre_messages(&self) -> (r: &'static [Token])
        ensures
            r@ == self@.pre_responder,
    {
        self.pre_messages_responder
    }

    /// Returns `true` if any message in this pattern mixes in a pre-shared
    /// key ([`Token::PSK`]).
    pub fn has_psk(&self) -> (r: bool)
        ensures
            r == self@.has_psk(),
    {
        let mut i: usize = 0;
        while i < self.messages.len()
            invariant
                0 <= i <= self.messages@.len(),
                forall|k: int| 0 <= k < i ==> !(#[trigger] self@.messages[k]).contains(Token::PSK),
            decreases self.messages@.len() - i,
        {
            let tokens = self.messages[i].tokens;
            if Self::contains_token(tokens, Token::PSK) {
                assert(self@.messages[i as int].contains(Token::PSK));
                return true;
            }
            i += 1;
        }
        false
    }

    /// Returns `true` if `tokens` holds `token`.
    pub(crate) fn contains_token(tokens: &[Token], token: Token) -> (r: bool)
        ensures
            r == tokens@.contains(token),
    {
        let mut i: usize = 0;
        while i < tokens.len()
            invariant
                0 <= i <= tokens@.len(),
                forall|k: int| 0 <= k < i ==> tokens@[k] != token,
            decreases tokens@.len() - i,
        {
            if tokens[i] == token {
                assert(tokens@[i as int] == token);
                return true;
            }
            i += 1;
        }
        false
    }

    /// Returns `true` if `tokens` holds [`Token::S`].
    pub fn contains_s(tokens: &[Token]) -> (r: bool)
        ensures
            r == tokens@.contains(Token::S),
    {
        Self::contains_token(tokens, Token::S)
    }

    /// Returns `true` if `tokens` holds [`Token::E`].
    pub fn contains_e(tokens: &[Token]) -> (r: bool)
        ensures
            r == tokens@.contains(Token::E),
    {
        Self::contains_token(tokens, Token::E)
    }

    /// Returns `true` if the peer's static key is known as a pre-message
    /// from the perspective of `is_initiator`.
    pub fn peer_static_is_premessage(&self, is_initiator: bool) -> (r: bool)
        ensures
            r == self@.peer_static_is_premessage(is_initiator),
    {
        let peer_pre = if is_initiator {
            self.pre_messages_responder
        } else {
            self.pre_messages_initiator
        };
        Self::contains_s(peer_pre)
    }

    /// Returns `true` if the peer's ephemeral key is known as a pre-message
    /// from the perspective of `is_initiator`.
    pub fn peer_ephemeral_is_premessage(&self, is_initiator: bool) -> (r: bool)
        ensures
            r == self@.peer_ephemeral_is_premessage(is_initiator),
    {
        let peer_pre = if is_initiator {
            self.pre_messages_responder
        } else {
            self.pre_messages_initiator
        };
        Self::contains_e(peer_pre)
    }

    /// Returns `true` if this pattern/role requires a local static key as a
    /// pre-message or sends [`Token::S`] in one of its own messages.
    pub fn local_static_required(&self, is_initiator: bool) -> (r: bool)
        ensures
            r == self@.local_static_required(is_initiator),
    {
        let own_pre = if is_initiator {
            self.pre_messages_initiator
        } else {
            self.pre_messages_responder
        };
        if Self::contains_s(own_pre) {
            return true;
        }
        let mut i: usize = 0;
        while i < self.messages.len()
            invariant
                0 <= i <= self.messages@.len(),
                !self@.own_pre(is_initiator).contains(Token::S),
                forall|k: int|
                    0 <= k < i && sent_by_initiator(k) == is_initiator
                        ==> !(#[trigger] self@.messages[k]).contains(Token::S),
            decreases self.messages@.len() - i,
        {
            let sent_by_init = i % 2 == 0;
            if sent_by_init == is_initiator && Self::contains_s(self.messages[i].tokens) {
                assert(self@.messages[i as int].contains(Token::S));
                return true;
            }
            i += 1;
        }
        false
    }

    /// Returns `true` if this pattern/role requires a local ephemeral key as
    /// a pre-message. Unlike
    /// [`local_static_required`](Self::local_static_required), only the
    /// pre-messages are checked.
    pub fn local_ephemeral_required(&self, is_initiator: bool) -> (r: bool)
        ensures
            r == self@.local_ephemeral_required(is_initiator),
    {
        let own_pre = if is_initiator {
            self.pre_messages_initiator
        } else {
            self.pre_messages_responder
        };
        if Self::contains_e(own_pre) {
            return true;
        }
        false
    }
}

/// The DH token `t` of the writer (the party `is_initiator`) uses the
/// writer's ephemeral keypair.
pub open spec fn uses_writer_e(is_initiator: bool, t: Token) -> bool {
    ||| t == Token::EE
    ||| (t == Token::ES && is_initiator)
    ||| (t == Token::SE && !is_initiator)
}

/// The DH token `t` of the writer (the party `is_initiator`) uses the
/// writer's static keypair.
pub open spec fn uses_writer_s(is_initiator: bool, t: Token) -> bool {
    ||| t == Token::SS
    ||| (t == Token::SE && is_initiator)
    ||| (t == Token::ES && !is_initiator)
}

/// Every DH token of `tokens`, written by the party `is_initiator`, uses a
/// key of the writer that the reader knows by then: its ephemeral key once
/// known (`e_known`) or sent by a token `e`, its static key once known
/// (`s_known`) or sent by a token `s`.
pub open spec fn writer_keys_known(
    is_initiator: bool,
    tokens: Seq<Token>,
    e_known: bool,
    s_known: bool,
) -> bool
    decreases tokens.len(),
{
    if tokens.len() == 0 {
        true
    } else {
        let t = tokens[0];
        &&& uses_writer_e(is_initiator, t) ==> e_known
        &&& uses_writer_s(is_initiator, t) ==> s_known
        &&& writer_keys_known(
            is_initiator,
            tokens.skip(1),
            e_known || t == Token::E,
            s_known || t == Token::S,
        )
    }
}

/// `tokens` holds `t`.
pub open spec fn has_token(tokens: Seq<Token>, t: Token) -> bool
    decreases tokens.len(),
{
    tokens.len() > 0 && (tokens[0] == t || has_token(tokens.skip(1), t))
}

/// What the two parties know of each other before the message at index
/// `k`: whether the initiator's ephemeral key was sent, whether its static
/// key is known to the responder (a pre-message or sent), and the same two
/// for the responder.
pub open spec fn history(hs: PatternSpec, k: nat) -> (bool, bool, bool, bool)
    decreases k,
{
    if k == 0 {
        (false, has_token(hs.pre_initiator, Token::S), false, has_token(hs.pre_responder, Token::S))
    } else {
        let h = history(hs, (k - 1) as nat);
        let m = hs.messages[k - 1];
        if sent_by_initiator(k - 1) {
            (h.0 || has_token(m, Token::E), h.1 || has_token(m, Token::S), h.2, h.3)
        } else {
            (h.0, h.1, h.2 || has_token(m, Token::E), h.3 || has_token(m, Token::S))
        }
    }
}

/// The DH tokens of the message at index `k` use keys of its writer that
/// the reader knows by then, given what the parties know before it.
pub open spec fn message_keys_known(hs: PatternSpec, k: nat) -> bool {
    let h = history(hs, k);
    let init = sent_by_initiator(k as int);
    writer_keys_known(
        init,
        hs.messages[k as int],
        if init {
            h.0
        } else {
            h.2
        },
        if init {
            h.1
        } else {
            h.3
        },
    )
}

/// The messages from index `k` on use only keys that their reader knows.
pub open spec fn keys_flow_from(hs: PatternSpec, k: nat) -> bool
    decreases hs.messages.len() - k,
{
    if k >= hs.messages.len() {
        true
    } else {
        message_keys_known(hs, k) && keys_flow_from(hs, k + 1)
    }
}

/// Trait that determines the properties of a Noise handshake pattern
/// (ex: `N`, `NN`, `XX`, etc.).
pub trait Pattern: Copy {
    /// The Noise protocol name of this pattern.
    spec fn spec_name() -> Seq<char>;

    /// The pre-messages and message sequence defining the pattern.
    spec fn spec_handshake() -> PatternSpec;

    /// The pre-messages of the pattern hold only `e` and `s`.
    proof fn lemma_pre_messages()
        ensures
            Self::spec_handshake().pre_messages_wf(),
    ;

    /// The pattern has the shape of [`PatternSpec::well_shaped`].
    proof fn lemma_shape()
        ensures
            Self::spec_handshake().well_shaped(),
    ;

    /// Every message of the pattern uses, in its DH tokens, only keys of
    /// its writer that the reader knows by then.
    proof fn lemma_keys_flow()
        ensures
            keys_flow_from(Self::spec_handshake(), 0),
    ;

    /// The Noise protocol name for this pattern, used to build the
    /// protocol name string.
    fn name() -> (r: &'static str)
        ensures
            r@ == Self::spec_name(),
    ;

    /// The pre-message and message sequence defining the pattern.
    fn handshake() -> (r: HandshakePattern)
        ensures
            r@ == Self::spec_handshake(),
    ;
}
/// The `N` pattern: one-way handshake where the initiator sends a 
/// single message to a responder whose static key is known in advance.
/// 
/// See [NoiseExplorer: N](https://noiseexplorer.com/patterns/N/).
#[derive(Copy, Clone)]
pub struct N;

impl Pattern for N {
    open spec fn spec_name() -> Seq<char> {
        "N"@
    }

    open spec fn spec_handshake() -> PatternSpec {
        PatternSpec {
            pre_initiator: seq![],
            pre_responder: seq![Token::S],
            messages: seq![seq![Token::E, Token::ES]],
        }
    }

    proof fn lemma_pre_messages() {
    }

    proof fn lemma_shape() {
        reveal_with_fuel(token_count, 8);
        reveal_with_fuel(sent_count, 4);
    }

    proof fn lemma_keys_flow() {
        reveal_with_fuel(keys_flow_from, 4);
        reveal_with_fuel(history, 4);
        reveal_with_fuel(writer_keys_known, 7);
        reveal_with_fuel(has_token, 7);
    }

    fn name() -> (r: &'static str) {
        "N"
    }

    fn handshake() -> (r: HandshakePattern) {
        let r = HandshakePattern {
            pre_messages_initiator: &[],
            pre_messages_responder: &[Token::S],
            messages: &[
                MessagePattern { tokens: &[Token::E, Token::ES] },
            ],
        };
        assert(r@.pre_initiator =~= Self::spec_handshake().pre_initiator);
        assert(r@.pre_responder =~= Self::spec_handshake().pre_responder);
        assert(r@.messages =~~= Self::spec_handshake().messages);
        r
    }
}

/// The `K` pattern: a one-way handshake where both parties static
/// keys are known to each other in advance.
/// 
/// See [NoiseExplorer: K](https://noiseexplorer.com/patterns/K).
#[derive(Copy, Clone)]
pub struct K;

impl Pattern for K {
    open spec fn spec_name() -> Seq<char> {
        "K"@
    }

    open spec fn spec_handshake() -> PatternSpec {
        PatternSpec {
            pre_initiator: seq![Token::S],
            pre_responder: seq![Token::S],
            messages: seq![seq![Token::E, Token::ES, Token::SS]],
        }
    }

    proof fn lemma_pre_messages() {
    }

    proof fn lemma_shape() {
        reveal_with_fuel(token_count, 8);
        reveal_with_fuel(sent_count, 4);
    }

    proof fn lemma_keys_flow() {
        reveal_with_fuel(keys_flow_from, 4);
        reveal_with_fuel(history, 4);
        reveal_with_fuel(writer_keys_known, 7);
        reveal_with_fuel(has_token, 7);
    }

    fn name() -> (r: &'static str) {
        "K"
    }

    fn handshake() -> (r: HandshakePattern) {
        let r = HandshakePattern {
            pre_messages_initiator: &[Token::S],
            pre_messages_responder: &[Token::S],
            messages: &[
                MessagePattern { tokens: &[Token::E, Token::ES, Token::SS] },
            ],
        };
        assert(r@.pre_initiator =~= Self::spec_handshake().pre_initiator);
        assert(r@.pre_responder =~= Self::spec_handshake().pre_responder);
        assert(r@.messages =~~= Self::spec_handshake().messages);
        r
    }
}

/// The `X` pattern: a one-way handshake where the responder's static
/// key is known in advance and the initiator transmits its own static
/// key within the message.
/// 
/// See [NoiseExplorer: X](https://noiseexplorer.com/patterns/X).
#[derive(Copy, Clone)]
pub struct X;

impl Pattern for X {
    open spec fn spec_name() -> Seq<char> {
        "X"@
    }

    open spec fn spec_handshake() -> PatternSpec {
        PatternSpec {
            pre_initiator: seq![],
            pre_responder: seq![Token::S],
            messages: seq![seq![Token::E, Token::ES, Token::S, Token::SS]],
        }
    }

    proof fn lemma_pre_messages() {
    }

    proof fn lemma_shape() {
        reveal_with_fuel(token_count, 8);
        reveal_with_fuel(sent_count, 4);
    }

    proof fn lemma_keys_flow() {
        reveal_with_fuel(keys_flow_from, 4);
        reveal_with_fuel(history, 4);
        reveal_with_fuel(writer_keys_known, 7);
        reveal_with_fuel(has_token, 7);
    }

    fn name() -> (r: &'static str) {
        "X"
    }

    fn handshake() -> (r: HandshakePattern) {
        let r = HandshakePattern {
            pre_messages_initiator: &[],
            pre_messages_responder: &[Token::S],
            messages: &[
                MessagePattern { tokens: &[Token::E, Token::ES, Token::S, Token::SS] },
            ],
        };
        assert(r@.pre_initiator =~= Self::spec_handshake().pre_initiator);
        assert(r@.pre_responder =~= Self::spec_handshake().pre_responder);
        assert(r@.messages =~~= Self::spec_handshake().messages);
        r
    }
}

/// The `NN` pattern: neither party's static key is known in advance
/// or transmitted.
/// 
/// See [NoiseExplorer: NN](https://noiseexplorer.com/patterns/NN).
#[derive(Copy, Clone)]
pub struct NN;

impl Pattern for NN {
    open spec fn spec_name() -> Seq<char> {
        "NN"@
    }

    open spec fn spec_handshake() -> PatternSpec {
        PatternSpec {
            pre_initiator: seq![],
            pre_responder: seq![],
            messages: seq![seq![Token::E], seq![Token::E, Token::EE]],
        }
    }

    proof fn lemma_pre_messages() {
    }

    proof fn lemma_shape() {
        reveal_with_fuel(token_count, 8);
        reveal_with_fuel(sent_count, 4);
    }

    proof fn lemma_keys_flow() {
        reveal_with_fuel(keys_flow_from, 4);
        reveal_with_fuel(history, 4);
        reveal_with_fuel(writer_keys_known, 7);
        reveal_with_fuel(has_token, 7);
    }

    fn name() -> (r: &'static str) {
        "NN"
    }

    fn handshake() -> (r: HandshakePattern) {
        let r = HandshakePattern {
            pre_messages_initiator: &[],
            pre_messages_responder: &[],
            messages: &[
                MessagePattern { tokens: &[Token::E] },
                MessagePattern { tokens: &[Token::E, Token::EE] },
            ],
        };
        assert(r@.pre_initiator =~= Self::spec_handshake().pre_initiator);
        assert(r@.pre_responder =~= Self::spec_handshake().pre_responder);
        assert(r@.messages =~~= Self::spec_handshake().messages);
        r
    }
}

/// The `NK` pattern: the responder's static key is known to the
/// initiator in advance, the initiator is not authenticated.
/// 
/// See [NoiseExplorer: NK](https://noiseexplorer.com/patterns/NK).
#[derive(Copy, Clone)]
pub struct NK;

impl Pattern for NK {
    open spec fn spec_name() -> Seq<char> {
        "NK"@
    }

    open spec fn spec_handshake() -> PatternSpec {
        PatternSpec {
            pre_initiator: seq![],
            pre_responder: seq![Token::S],
            messages: seq![seq![Token::E, Token::ES], seq![Token::E, Token::EE]],
        }
    }

    proof fn lemma_pre_messages() {
    }

    proof fn lemma_shape() {
        reveal_with_fuel(token_count, 8);
        reveal_with_fuel(sent_count, 4);
    }

    proof fn lemma_keys_flow() {
        reveal_with_fuel(keys_flow_from, 4);
        reveal_with_fuel(history, 4);
        reveal_with_fuel(writer_keys_known, 7);
        reveal_with_fuel(has_token, 7);
    }

    fn name() -> (r: &'static str) {
        "NK"
    }

    fn handshake() -> (r: HandshakePattern) {
        let r = HandshakePattern {
            pre_messages_initiator: &[],
            pre_messages_responder: &[Token::S],
            messages: &[
                MessagePattern { tokens: &[Token::E, Token::ES] },
                MessagePattern { tokens: &[Token::E, Token::EE] },
            ],
        };
        assert(r@.pre_initiator =~= Self::spec_handshake().pre_initiator);
        assert(r@.pre_responder =~= Self::spec_handshake().pre_responder);
        assert(r@.messages =~~= Self::spec_handshake().messages);
        r
    }
}

/// The `NX` pattern: the responder transmits its static key during
/// the handshake.
/// 
/// See [NoiseExplorer: NX](https://noiseexplorer.com/patterns/NX).
#[derive(Copy, Clone)]
pub struct NX;

impl Pattern for NX {
    open spec fn spec_name() -> Seq<char> {
        "NX"@
    }

    open spec fn spec_handshake() -> PatternSpec {
        PatternSpec {
            pre_initiator: seq![],
            pre_responder: seq![],
            messages: seq![seq![Token::E], seq![Token::E, Token::EE, Token::S, Token::ES]],
        }
    }

    proof fn lemma_pre_messages() {
    }

    proof fn lemma_shape() {
        reveal_with_fuel(token_count, 8);
        reveal_with_fuel(sent_count, 4);
    }

    proof fn lemma_keys_flow() {
        reveal_with_fuel(keys_flow_from, 4);
        reveal_with_fuel(history, 4);
        reveal_with_fuel(writer_keys_known, 7);
        reveal_with_fuel(has_token, 7);
    }

    fn name() -> (r: &'static str) {
        "NX"
    }

    fn handshake() -> (r: HandshakePattern) {
        let r = HandshakePattern {
            pre_messages_initiator: &[],
            pre_messages_responder: &[],
            messages: &[
                MessagePattern { tokens: &[Token::E] },
                MessagePattern { tokens: &[Token::E, Token::EE, Token::S, Token::ES] },
            ],
        };
        assert(r@.pre_initiator =~= Self::spec_handshake().pre_initiator);
        assert(r@.pre_responder =~= Self::spec_handshake().pre_responder);
        assert(r@.messages =~~= Self::spec_handshake().messages);
        r
    }
}

/// The `XN` pattern: the initiator's static key is transmitted
/// during the handshake, the responder is unauthenticated.
/// 
/// See [NoiseExplorer: XN](https://noiseexplorer.com/patterns/XN)
#[derive(Copy, Clone)]
pub struct XN;

impl Pattern for XN {
    open spec fn spec_name() -> Seq<char> {
        "XN"@
    }

    open spec fn spec_handshake() -> PatternSpec {
        PatternSpec {
            pre_initiator: seq![],
            pre_responder: seq![],
            messages: seq![seq![Token::E], seq![Token::E, Token::EE], seq![Token::S, Token::SE]],
        }
    }

    proof fn lemma_pre_messages() {
    }

    proof fn lemma_shape() {
        reveal_with_fuel(token_count, 8);
        reveal_with_fuel(sent_count, 4);
    }

    proof fn lemma_keys_flow() {
        reveal_with_fuel(keys_flow_from, 4);
        reveal_with_fuel(history, 4);
        reveal_with_fuel(writer_keys_known, 7);
        reveal_with_fuel(has_token, 7);
    }

    fn name() -> (r: &'static str) {
        "XN"
    }

    fn handshake() -> (r: HandshakePattern) {
        let r = HandshakePattern {
            pre_messages_initiator: &[],
            pre_messages_responder: &[],
            messages: &[
                MessagePattern { tokens: &[Token::E] },
                MessagePattern { tokens: &[Token::E, Token::EE] },
                MessagePattern { tokens: &[Token::S, Token::SE] },
            ],
        };
        assert(r@.pre_initiator =~= Self::spec_handshake().pre_initiator);
        assert(r@.pre_responder =~= Self::spec_handshake().pre_responder);
        assert(r@.messages =~~= Self::spec_handshake().messages);
        r
    }
}

/// The `XK` pattern: the responder's static key is known in advance,
/// the initiator sends his during the handshake.
/// 
/// See [NoiseExplorer: XK](https://noiseexplorer.com/patterns/XK).
#[derive(Copy, Clone)]
pub struct XK;

impl Pattern for XK {
    open spec fn spec_name() -> Seq<char> {
        "XK"@
    }

    open spec fn spec_handshake() -> PatternSpec {
        PatternSpec {
            pre_initiator: seq![],
            pre_responder: seq![Token::S],
            messages: seq![seq![Token::E, Token::ES], seq![Token::E, Token::EE], seq![Token::S, Token::SE]],
        }
    }

    proof fn lemma_pre_messages() {
    }

    proof fn lemma_shape() {
        reveal_with_fuel(token_count, 8);
        reveal_with_fuel(sent_count, 4);
    }

    proof fn lemma_keys_flow() {
        reveal_with_fuel(keys_flow_from, 4);
        reveal_with_fuel(history, 4);
        reveal_with_fuel(writer_keys_known, 7);
        reveal_with_fuel(has_token, 7);
    }

    fn name() -> (r: &'static str) {
        "XK"
    }

    fn handshake() -> (r: HandshakePattern) {
        let r = HandshakePattern {
            pre_messages_initiator: &[],
            pre_messages_responder: &[Token::S],
            messages: &[
                MessagePattern { tokens: &[Token::E, Token::ES] },
                MessagePattern { tokens: &[Token::E, Token::EE] },
                MessagePattern { tokens: &[Token::S, Token::SE] },
            ],
        };
        assert(r@.pre_initiator =~= Self::spec_handshake().pre_initiator);
        assert(r@.pre_responder =~= Self::spec_handshake().pre_responder);
        assert(r@.messages =~~= Self::spec_handshake().messages);
        r
    }
}

/// The `XX` pattern: neither party's static key is known in advance,
/// both send them during the handshake.
/// 
/// See [NoiseExplorer: XX](https://noiseexplorer.com/patterns/XX).
#[derive(Copy, Clone)]
pub struct XX;

impl Pattern for XX {
    open spec fn spec_name() -> Seq<char> {
        "XX"@
    }

    open spec fn spec_handshake() -> PatternSpec {
        PatternSpec {
            pre_initiator: seq![],
            pre_responder: seq![],
            messages: seq![seq![Token::E], seq![Token::E, Token::EE, Token::S, Token::ES], seq![Token::S, Token::SE]],
        }
    }

    proof fn lemma_pre_messages() {
    }

    proof fn lemma_shape() {
        reveal_with_fuel(token_count, 8);
        reveal_with_fuel(sent_count, 4);
    }

    proof fn lemma_keys_flow() {
        reveal_with_fuel(keys_flow_from, 4);
        reveal_with_fuel(history, 4);
        reveal_with_fuel(writer_keys_known, 7);
        reveal_with_fuel(has_token, 7);
    }

    fn name() -> (r: &'static str) {
        "XX"
    }

    fn handshake() -> (r: HandshakePattern) {
        let r = HandshakePattern {
            pre_messages_initiator: &[],
            pre_messages_responder: &[],
            messages: &[
                MessagePattern { tokens: &[Token::E] },
                MessagePattern { tokens: &[Token::E, Token::EE, Token::S, Token::ES] },
                MessagePattern { tokens: &[Token::S, Token::SE] },
            ],
        };
        assert(r@.pre_initiator =~= Self::spec_handshake().pre_initiator);
        assert(r@.pre_responder =~= Self::spec_handshake().pre_responder);
        assert(r@.messages =~~= Self::spec_handshake().messages);
        r
    }
}

/// The `KN` pattern: The initiator's static key is known in advance,
/// the responder is not authenticated.
/// 
/// See [NoiseExplorer: KN](https://noiseexplorer.com/patterns/KN).
#[derive(Copy, Clone)]
pub struct KN;

impl Pattern for KN {
    open spec fn spec_name() -> Seq<char> {
        "KN"@
    }

    open spec fn spec_handshake() -> PatternSpec {
        PatternSpec {
            pre_initiator: seq![Token::S],
            pre_responder: seq![],
            messages: seq![seq![Token::E], seq![Token::E, Token::EE, Token::SE]],
        }
    }

    proof fn lemma_pre_messages() {
    }

    proof fn lemma_shape() {
        reveal_with_fuel(token_count, 8);
        reveal_with_fuel(sent_count, 4);
    }

    proof fn lemma_keys_flow() {
        reveal_with_fuel(keys_flow_from, 4);
        reveal_with_fuel(history, 4);
        reveal_with_fuel(writer_keys_known, 7);
        reveal_with_fuel(has_token, 7);
    }

    fn name() -> (r: &'static str) {
        "KN"
    }

    fn handshake() -> (r: HandshakePattern) {
        let r = HandshakePattern {
            pre_messages_initiator: &[Token::S],
            pre_messages_responder: &[],
            messages: &[
                MessagePattern { tokens: &[Token::E] },
                MessagePattern { tokens: &[Token::E, Token::EE, Token::SE] },
            ],
        };
        assert(r@.pre_initiator =~= Self::spec_handshake().pre_initiator);
        assert(r@.pre_responder =~= Self::spec_handshake().pre_responder);
        assert(r@.messages =~~= Self::spec_handshake().messages);
        r
    }
}

/// The `KK` pattern: both party's static keys are known to each
/// other in advance.
/// 
/// See [NoiseExplorer: KK](https://noiseexplorer.com/patterns/KK).
#[derive(Copy, Clone)]
pub struct KK;

impl Pattern for KK {
    open spec fn spec_name() -> Seq<char> {
        "KK"@
    }

    open spec fn spec_handshake() -> PatternSpec {
        PatternSpec {
            pre_initiator: seq![Token::S],
            pre_responder: seq![Token::S],
            messages: seq![seq![Token::E, Token::ES, Token::SS], seq![Token::E, Token::EE, Token::SE]],
        }
    }

    proof fn lemma_pre_messages() {
    }

    proof fn lemma_shape() {
        reveal_with_fuel(token_count, 8);
        reveal_with_fuel(sent_count, 4);
    }

    proof fn lemma_keys_flow() {
        reveal_with_fuel(keys_flow_from, 4);
        reveal_with_fuel(history, 4);
        reveal_with_fuel(writer_keys_known, 7);
        reveal_with_fuel(has_token, 7);
    }

    fn name() -> (r: &'static str) {
        "KK"
    }

    fn handshake() -> (r: HandshakePattern) {
        let r = HandshakePattern {
            pre_messages_initiator: &[Token::S],
            pre_messages_responder: &[Token::S],
            messages: &[
                MessagePattern { tokens: &[Token::E, Token::ES, Token::SS] },
                MessagePattern { tokens: &[Token::E, Token::EE, Token::SE] },
            ],
        };
        assert(r@.pre_initiator =~= Self::spec_handshake().pre_initiator);
        assert(r@.pre_responder =~= Self::spec_handshake().pre_responder);
        assert(r@.messages =~~= Self::spec_handshake().messages);
        r
    }
}

/// The `KX` pattern: The initiator's static key is known in advance,
/// the responder send his during the handshake.
/// 
/// See [NoiseExplorer: KX](https://noiseexplorer.com/patterns/KX).
#[derive(Copy, Clone)]
pub struct KX;

impl Pattern for KX {
    open spec fn spec_name() -> Seq<char> {
        "KX"@
    }

    open spec fn spec_handshake() -> PatternSpec {
        PatternSpec {
            pre_initiator: seq![Token::S],
            pre_responder: seq![],
            messages: seq![seq![Token::E], seq![Token::E, Token::EE, Token::SE, Token::S, Token::ES]],
        }
    }

    proof fn lemma_pre_messages() {
    }

    proof fn lemma_shape() {
        reveal_with_fuel(token_count, 8);
        reveal_with_fuel(sent_count, 4);
    }

    proof fn lemma_keys_flow() {
        reveal_with_fuel(keys_flow_from, 4);
        reveal_with_fuel(history, 4);
        reveal_with_fuel(writer_keys_known, 7);
        reveal_with_fuel(has_token, 7);
    }

    fn name() -> (r: &'static str) {
        "KX"
    }

    fn handshake() -> (r: HandshakePattern) {
        let r = HandshakePattern {
            pre_messages_initiator: &[Token::S],
            pre_messages_responder: &[],
            messages: &[
                MessagePattern { tokens: &[Token::E] },
                MessagePattern { tokens: &[Token::E, Token::EE, Token::SE, Token::S, Token::ES] },
            ],
        };
        assert(r@.pre_initiator =~= Self::spec_handshake().pre_initiator);
        assert(r@.pre_responder =~= Self::spec_handshake().pre_responder);
        assert(r@.messages =~~= Self::spec_handshake().messages);
        r
    }
}

/// The `IN` pattern: the initiator sends his static key in the first
/// message, the responder is not authenticated.
/// 
/// See [NoiseExplorer: IN](https://noiseexplorer.com/patterns/IN).
#[derive(Copy, Clone)]
pub struct IN;

impl Pattern for IN {
    open spec fn spec_name() -> Seq<char> {
        "IN"@
    }

    open spec fn spec_handshake() -> PatternSpec {
        PatternSpec {
            pre_initiator: seq![],
            pre_responder: seq![],
            messages: seq![seq![Token::E, Token::S], seq![Token::E, Token::EE, Token::SE]],
        }
    }

    proof fn lemma_pre_messages() {
    }

    proof fn lemma_shape() {
        reveal_with_fuel(token_count, 8);
        reveal_with_fuel(sent_count, 4);
    }

    proof fn lemma_keys_flow() {
        reveal_with_fuel(keys_flow_from, 4);
        reveal_with_fuel(history, 4);
        reveal_with_fuel(writer_keys_known, 7);
        reveal_with_fuel(has_token, 7);
    }

    fn name() -> (r: &'static str) {
        "IN"
    }

    fn handshake() -> (r: HandshakePattern) {
        let r = HandshakePattern {
            pre_messages_initiator: &[],
            pre_messages_responder: &[],
            messages: &[
                MessagePattern { tokens: &[Token::E, Token::S] },
                MessagePattern { tokens: &[Token::E, Token::EE, Token::SE] },
            ],
        };
        assert(r@.pre_initiator =~= Self::spec_handshake().pre_initiator);
        assert(r@.pre_responder =~= Self::spec_handshake().pre_responder);
        assert(r@.messages =~~= Self::spec_handshake().messages);
        r
    }
}

/// The `IK` pattern: the responder's static key is known in advance,
/// the initiator send his in the first message.
/// 
/// See [NoiseExplorer: IK](https://noiseexplorer.com/patterns/IK).
#[derive(Copy, Clone)]
pub struct IK;

impl Pattern for IK {
    open spec fn spec_name() -> Seq<char> {
        "IK"@
    }

    open spec fn spec_handshake() -> PatternSpec {
        PatternSpec {
            pre_initiator: seq![],
            pre_responder: seq![Token::S],
            messages: seq![seq![Token::E, Token::ES, Token::S, Token::SS], seq![Token::E, Token::EE, Token::SE]],
        }
    }

    proof fn lemma_pre_messages() {
    }

    proof fn lemma_shape() {
        reveal_with_fuel(token_count, 8);
        reveal_with_fuel(sent_count, 4);
    }

    proof fn lemma_keys_flow() {
        reveal_with_fuel(keys_flow_from, 4);
        reveal_with_fuel(history, 4);
        reveal_with_fuel(writer_keys_known, 7);
        reveal_with_fuel(has_token, 7);
    }

    fn name() -> (r: &'static str) {
        "IK"
    }

    fn handshake() -> (r: HandshakePattern) {
        let r = HandshakePattern {
            pre_messages_initiator: &[],
            pre_messages_responder: &[Token::S],
            messages: &[
                MessagePattern { tokens: &[Token::E, Token::ES, Token::S, Token::SS] },
                MessagePattern { tokens: &[Token::E, Token::EE, Token::SE] },
            ],
        };
        assert(r@.pre_initiator =~= Self::spec_handshake().pre_initiator);
        assert(r@.pre_responder =~= Self::spec_handshake().pre_responder);
        assert(r@.messages =~~= Self::spec_handshake().messages);
        r
    }
}

/// The `IX` pattern: neither static keys are known in advance,
/// the initiator sends his in the first message and the responder
/// in his response.
/// 
/// See [NoiseExplorer: IX](https://noiseexplorer.com/patterns/IX).
#[derive(Copy, Clone)]
pub struct IX;

impl Pattern for IX {
    open spec fn spec_name() -> Seq<char> {
        "IX"@
    }

    open spec fn spec_handshake() -> PatternSpec {
        PatternSpec {
            pre_initiator: seq![],
            pre_responder: seq![],
            messages: seq![seq![Token::E, Token::S], seq![Token::E, Token::EE, Token::SE, Token::S, Token::ES]],
        }
    }

    proof fn lemma_pre_messages() {
    }

    proof fn lemma_shape() {
        reveal_with_fuel(token_count, 8);
        reveal_with_fuel(sent_count, 4);
    }

    proof fn lemma_keys_flow() {
        reveal_with_fuel(keys_flow_from, 4);
        reveal_with_fuel(history, 4);
        reveal_with_fuel(writer_keys_known, 7);
        reveal_with_fuel(has_token, 7);
    }

    fn name() -> (r: &'static str) {
        "IX"
    }

    fn handshake() -> (r: HandshakePattern) {
        let r = HandshakePattern {
            pre_messages_initiator: &[],
            pre_messages_responder: &[],
            messages: &[
                MessagePattern { tokens: &[Token::E, Token::S] },
                MessagePattern { tokens: &[Token::E, Token::EE, Token::SE, Token::S, Token::ES] },
            ],
        };
        assert(r@.pre_initiator =~= Self::spec_handshake().pre_initiator);
        assert(r@.pre_responder =~= Self::spec_handshake().pre_responder);
        assert(r@.messages =~~= Self::spec_handshake().messages);
        r
    }
}

/// The `Npsk0` pattern: the `N` pattern with a pre-shared key mixed
/// in at the start of the message.
/// 
/// See [NoiseExplorer: Npsk0](https://noiseexplorer.com/patterns/Npsk0).
#[derive(Copy, Clone)]
pub struct Npsk0;

impl Pattern for Npsk0 {
    open spec fn spec_name() -> Seq<char> {
        "Npsk0"@
    }

    open spec fn spec_handshake() -> PatternSpec {
        PatternSpec {
            pre_initiator: seq![],
            pre_responder: seq![Token::S],
            messages: seq![seq![Token::PSK, Token::E, Token::ES]],
        }
    }

    proof fn lemma_pre_messages() {
    }

    proof fn lemma_shape() {
        reveal_with_fuel(token_count, 8);
        reveal_with_fuel(sent_count, 4);
    }

    proof fn lemma_keys_flow() {
        reveal_with_fuel(keys_flow_from, 4);
        reveal_with_fuel(history, 4);
        reveal_with_fuel(writer_keys_known, 7);
        reveal_with_fuel(has_token, 7);
    }

    fn name() -> (r: &'static str) {
        "Npsk0"
    }

    fn handshake() -> (r: HandshakePattern) {
        let r = HandshakePattern {
            pre_messages_initiator: &[],
            pre_messages_responder: &[Token::S],
            messages: &[
                MessagePattern { tokens: &[Token::PSK, Token::E, Token::ES] },
            ],
        };
        assert(r@.pre_initiator =~= Self::spec_handshake().pre_initiator);
        assert(r@.pre_responder =~= Self::spec_handshake().pre_responder);
        assert(r@.messages =~~= Self::spec_handshake().messages);
        r
    }
}

/// The `Kpsk0` pattern: the `K` pattern with a pre-shard key mixed 
/// in at the start of the message.
/// 
/// See [NoiseExplorer: Kpsk0](https://noiseexplorer.com/patterns/Kpsk0).
#[derive(Copy, Clone)]
pub struct Kpsk0;

impl Pattern for Kpsk0 {
    open spec fn spec_name() -> Seq<char> {
        "Kpsk0"@
    }

    open spec fn spec_handshake() -> PatternSpec {
        PatternSpec {
            pre_initiator: seq![Token::S],
            pre_responder: seq![Token::S],
            messages: seq![seq![Token::PSK, Token::E, Token::ES, Token::SS]],
        }
    }

    proof fn lemma_pre_messages() {
    }

    proof fn lemma_shape() {
        reveal_with_fuel(token_count, 8);
        reveal_with_fuel(sent_count, 4);
    }

    proof fn lemma_keys_flow() {
        reveal_with_fuel(keys_flow_from, 4);
        reveal_with_fuel(history, 4);
        reveal_with_fuel(writer_keys_known, 7);
        reveal_with_fuel(has_token, 7);
    }

    fn name() -> (r: &'static str) {
        "Kpsk0"
    }

    fn handshake() -> (r: HandshakePattern) {
        let r = HandshakePattern {
            pre_messages_initiator: &[Token::S],
            pre_messages_responder: &[Token::S],
            messages: &[
                MessagePattern { tokens: &[Token::PSK, Token::E, Token::ES, Token::SS] },
            ],
        };
        assert(r@.pre_initiator =~= Self::spec_handshake().pre_initiator);
        assert(r@.pre_responder =~= Self::spec_handshake().pre_responder);
        assert(r@.messages =~~= Self::spec_handshake().messages);
        r
    }
}

/// The `Xpsk1` pattern: the `X` pattern with a pre-shared key mixed
/// in at the end of the message.
/// 
/// See [NoiseExplorer: Xpsk1](https://noiseexplorer.com/patterns/Xpsk1).
#[derive(Copy, Clone)]
pub struct Xpsk1;

impl Pattern for Xpsk1 {
    open spec fn spec_name() -> Seq<char> {
        "Xpsk1"@
    }

    open spec fn spec_handshake() -> PatternSpec {
        PatternSpec {
            pre_initiator: seq![],
            pre_responder: seq![Token::S],
            messages: seq![seq![Token::E, Token::ES, Token::S, Token::SS, Token::PSK]],
        }
    }

    proof fn lemma_pre_messages() {
    }

    proof fn lemma_shape() {
        reveal_with_fuel(token_count, 8);
        reveal_with_fuel(sent_count, 4);
    }

    proof fn lemma_keys_flow() {
        reveal_with_fuel(keys_flow_from, 4);
        reveal_with_fuel(history, 4);
        reveal_with_fuel(writer_keys_known, 7);
        reveal_with_fuel(has_token, 7);
    }

    fn name() -> (r: &'static str) {
        "Xpsk1"
    }

    fn handshake() -> (r: HandshakePattern) {
        let r = HandshakePattern {
            pre_messages_initiator: &[],
            pre_messages_responder: &[Token::S],
            messages: &[
                MessagePattern { tokens: &[Token::E, Token::ES, Token::S, Token::SS, Token::PSK] },
            ],
        };
        assert(r@.pre_initiator =~= Self::spec_handshake().pre_initiator);
        assert(r@.pre_responder =~= Self::spec_handshake().pre_responder);
        assert(r@.messages =~~= Self::spec_handshake().messages);
        r
    }
}

/// The `NNpsk0` pattern: the `NN` pattern with a pre-shared key mixed
/// in at the start of the first message.
/// 
/// See [NoiseExplorer: NNpsk0](https://noiseexplorer.com/patterns/NNpsk0).
#[derive(Copy, Clone)]
pub struct NNpsk0;

impl Pattern for NNpsk0 {
    open spec fn spec_name() -> Seq<char> {
        "NNpsk0"@
    }

    open spec fn spec_handshake() -> PatternSpec {
        PatternSpec {
            pre_initiator: seq![],
            pre_responder: seq![],
            messages: seq![seq![Token::PSK, Token::E], seq![Token::E, Token::EE]],
        }
    }

    proof fn lemma_pre_messages() {
    }

    proof fn lemma_shape() {
        reveal_with_fuel(token_count, 8);
        reveal_with_fuel(sent_count, 4);
    }

    proof fn lemma_keys_flow() {
        reveal_with_fuel(keys_flow_from, 4);
        reveal_with_fuel(history, 4);
        reveal_with_fuel(writer_keys_known, 7);
        reveal_with_fuel(has_token, 7);
    }

    fn name() -> (r: &'static str) {
        "NNpsk0"
    }

    fn handshake() -> (r: HandshakePattern) {
        let r = HandshakePattern {
            pre_messages_initiator: &[],
            pre_messages_responder: &[],
            messages: &[
                MessagePattern { tokens: &[Token::PSK, Token::E] },
                MessagePattern { tokens: &[Token::E, Token::EE] },
            ],
        };
        assert(r@.pre_initiator =~= Self::spec_handshake().pre_initiator);
        assert(r@.pre_responder =~= Self::spec_handshake().pre_responder);
        assert(r@.messages =~~= Self::spec_handshake().messages);
        r
    }
}

/// The `NNpsk2` pattern: the `NN` pattern with a pre-shared key mixed
/// in at the end of the second message.
///
/// See [NoiseExplorer: NNpsk2](https://noiseexplorer.com/patterns/NNpsk2).
#[derive(Copy, Clone)]
pub struct NNpsk2;

impl Pattern for NNpsk2 {
    open spec fn spec_name() -> Seq<char> {
        "NNpsk2"@
    }

    open spec fn spec_handshake() -> PatternSpec {
        PatternSpec {
            pre_initiator: seq![],
            pre_responder: seq![],
            messages: seq![seq![Token::E], seq![Token::E, Token::EE, Token::PSK]],
        }
    }

    proof fn lemma_pre_messages() {
    }

    proof fn lemma_shape() {
        reveal_with_fuel(token_count, 8);
        reveal_with_fuel(sent_count, 4);
    }

    proof fn lemma_keys_flow() {
        reveal_with_fuel(keys_flow_from, 4);
        reveal_with_fuel(history, 4);
        reveal_with_fuel(writer_keys_known, 7);
        reveal_with_fuel(has_token, 7);
    }

    fn name() -> (r: &'static str) {
        "NNpsk2"
    }

    fn handshake() -> (r: HandshakePattern) {
        let r = HandshakePattern {
            pre_messages_initiator: &[],
            pre_messages_responder: &[],
            messages: &[
                MessagePattern { tokens: &[Token::E] },
                MessagePattern { tokens: &[Token::E, Token::EE, Token::PSK] },
            ],
        };
        assert(r@.pre_initiator =~= Self::spec_handshake().pre_initiator);
        assert(r@.pre_responder =~= Self::spec_handshake().pre_responder);
        assert(r@.messages =~~= Self::spec_handshake().messages);
        r
    }
}

/// The `NKpsk0` pattern: the `NK` pattern with a pre-shared key
/// mixed in at the start of the first message.
/// 
/// See [NoiseExplorer: NKpsk0](https://noiseexplorer.com/patterns/NKpsk0).
#[derive(Copy, Clone)]
pub struct NKpsk0;

impl Pattern for NKpsk0 {
    open spec fn spec_name() -> Seq<char> {
        "NKpsk0"@
    }

    open spec fn spec_handshake() -> PatternSpec {
        PatternSpec {
            pre_initiator: seq![],
            pre_responder: seq![Token::S],
            messages: seq![seq![Token::PSK, Token::E, Token::ES], seq![Token::E, Token::EE]],
        }
    }

    proof fn lemma_pre_messages() {
    }

    proof fn lemma_shape() {
        reveal_with_fuel(token_count, 8);
        reveal_with_fuel(sent_count, 4);
    }

    proof fn lemma_keys_flow() {
        reveal_with_fuel(keys_flow_from, 4);
        reveal_with_fuel(history, 4);
        reveal_with_fuel(writer_keys_known, 7);
        reveal_with_fuel(has_token, 7);
    }

    fn name() -> (r: &'static str) {
        "NKpsk0"
    }

    fn handshake() -> (r: HandshakePattern) {
        let r = HandshakePattern {
            pre_messages_initiator: &[],
            pre_messages_responder: &[Token::S],
            messages: &[
                MessagePattern { tokens: &[Token::PSK, Token::E, Token::ES] },
                MessagePattern { tokens: &[Token::E, Token::EE] },
            ],
        };
        assert(r@.pre_initiator =~= Self::spec_handshake().pre_initiator);
        assert(r@.pre_responder =~= Self::spec_handshake().pre_responder);
        assert(r@.messages =~~= Self::spec_handshake().messages);
        r
    }
}

/// The `NKpsk2` pattern: the `NK` pattern with a pre-shared key mixed
/// in at the end of the second message.
/// 
/// See [NoiseExplorer: NKpsk2](https://noiseexplorer.com/patterns/NKpsk2).
#[derive(Copy, Clone)]
pub struct NKpsk2;

impl Pattern for NKpsk2 {
    open spec fn spec_name() -> Seq<char> {
        "NKpsk2"@
    }

    open spec fn spec_handshake() -> PatternSpec {
        PatternSpec {
            pre_initiator: seq![],
            pre_responder: seq![Token::S],
            messages: seq![seq![Token::E, Token::ES], seq![Token::E, Token::EE, Token::PSK]],
        }
    }

    proof fn lemma_pre_messages() {
    }

    proof fn lemma_shape() {
        reveal_with_fuel(token_count, 8);
        reveal_with_fuel(sent_count, 4);
    }

    proof fn lemma_keys_flow() {
        reveal_with_fuel(keys_flow_from, 4);
        reveal_with_fuel(history, 4);
        reveal_with_fuel(writer_keys_known, 7);
        reveal_with_fuel(has_token, 7);
    }

    fn name() -> (r: &'static str) {
        "NKpsk2"
    }

    fn handshake() -> (r: HandshakePattern) {
        let r = HandshakePattern {
            pre_messages_initiator: &[],
            pre_messages_responder: &[Token::S],
            messages: &[
                MessagePattern { tokens: &[Token::E, Token::ES] },
                MessagePattern { tokens: &[Token::E, Token::EE, Token::PSK] },
            ],
        };
        assert(r@.pre_initiator =~= Self::spec_handshake().pre_initiator);
        assert(r@.pre_responder =~= Self::spec_handshake().pre_responder);
        assert(r@.messages =~~= Self::spec_handshake().messages);
        r
    }
}

/// The `NXpsk2` pattern: the `NX` pattern with a pre-shared key mixed
/// in at the end of the second message.
/// 
/// See [NoiseExplorer: NXpsk2](https://noiseexplorer.com/patterns/NXpsk2).
#[derive(Copy, Clone)]
pub struct NXpsk2;

impl Pattern for NXpsk2 {
    open spec fn spec_name() -> Seq<char> {
        "NXpsk2"@
    }

    open spec fn spec_handshake() -> PatternSpec {
        PatternSpec {
            pre_initiator: seq![],
            pre_responder: seq![],
            messages: seq![seq![Token::E], seq![Token::E, Token::EE, Token::S, Token::ES, Token::PSK]],
        }
    }

    proof fn lemma_pre_messages() {
    }

    proof fn lemma_shape() {
        reveal_with_fuel(token_count, 8);
        reveal_with_fuel(sent_count, 4);
    }

    proof fn lemma_keys_flow() {
        reveal_with_fuel(keys_flow_from, 4);
        reveal_with_fuel(history, 4);
        reveal_with_fuel(writer_keys_known, 7);
        reveal_with_fuel(has_token, 7);
    }

    fn name() -> (r: &'static str) {
        "NXpsk2"
    }

    fn handshake() -> (r: HandshakePattern) {
        let r = HandshakePattern {
            pre_messages_initiator: &[],
            pre_messages_responder: &[],
            messages: &[
                MessagePattern { tokens: &[Token::E] },
                MessagePattern { tokens: &[Token::E, Token::EE, Token::S, Token::ES, Token::PSK] },
            ],
        };
        assert(r@.pre_initiator =~= Self::spec_handshake().pre_initiator);
        assert(r@.pre_responder =~= Self::spec_handshake().pre_responder);
        assert(r@.messages =~~= Self::spec_handshake().messages);
        r
    }
}

/// The `XNpsk3` pattern: the `XN` pattern with a pre-shared key mixed
/// in at the end of the third message.
/// 
/// See [NoiseExplorer: XNpsk3](https://noiseexplorer.com/patterns/XNpsk3).
#[derive(Copy, Clone)]
pub struct XNpsk3;

impl Pattern for XNpsk3 {
    open spec fn spec_name() -> Seq<char> {
        "XNpsk3"@
    }

    open spec fn spec_handshake() -> PatternSpec {
        PatternSpec {
            pre_initiator: seq![],
            pre_responder: seq![],
            messages: seq![seq![Token::E], seq![Token::E, Token::EE], seq![Token::S, Token::SE, Token::PSK]],
        }
    }

    proof fn lemma_pre_messages() {
    }

    proof fn lemma_shape() {
        reveal_with_fuel(token_count, 8);
        reveal_with_fuel(sent_count, 4);
    }

    proof fn lemma_keys_flow() {
        reveal_with_fuel(keys_flow_from, 4);
        reveal_with_fuel(history, 4);
        reveal_with_fuel(writer_keys_known, 7);
        reveal_with_fuel(has_token, 7);
    }

    fn name() -> (r: &'static str) {
        "XNpsk3"
    }

    fn handshake() -> (r: HandshakePattern) {
        let r = HandshakePattern {
            pre_messages_initiator: &[],
            pre_messages_responder: &[],
            messages: &[
                MessagePattern { tokens: &[Token::E] },
                MessagePattern { tokens: &[Token::E, Token::EE] },
                MessagePattern { tokens: &[Token::S, Token::SE, Token::PSK] },
            ],
        };
        assert(r@.pre_initiator =~= Self::spec_handshake().pre_initiator);
        assert(r@.pre_responder =~= Self::spec_handshake().pre_responder);
        assert(r@.messages =~~= Self::spec_handshake().messages);
        r
    }
}

/// The `XKpsk3` pattern: the `XK` pattern with a pre-shared key mixed
/// in at the end of the third message.
/// 
/// See [NoiseExplorer: XKpsk3](https://noiseexplorer.com/patterns/XKpsk3).
#[derive(Copy, Clone)]
pub struct XKpsk3;

impl Pattern for XKpsk3 {
    open spec fn spec_name() -> Seq<char> {
        "XKpsk3"@
    }

    open spec fn spec_handshake() -> PatternSpec {
        PatternSpec {
            pre_initiator: seq![],
            pre_responder: seq![Token::S],
            messages: seq![seq![Token::E, Token::ES], seq![Token::E, Token::EE], seq![Token::S, Token::SE, Token::PSK]],
        }
    }

    proof fn lemma_pre_messages() {
    }

    proof fn lemma_shape() {
        reveal_with_fuel(token_count, 8);
        reveal_with_fuel(sent_count, 4);
    }

    proof fn lemma_keys_flow() {
        reveal_with_fuel(keys_flow_from, 4);
        reveal_with_fuel(history, 4);
        reveal_with_fuel(writer_keys_known, 7);
        reveal_with_fuel(has_token, 7);
    }

    fn name() -> (r: &'static str) {
        "XKpsk3"
    }

    fn handshake() -> (r: HandshakePattern) {
        let r = HandshakePattern {
            pre_messages_initiator: &[],
            pre_messages_responder: &[Token::S],
            messages: &[
                MessagePattern { tokens: &[Token::E, Token::ES] },
                MessagePattern { tokens: &[Token::E, Token::EE] },
                MessagePattern { tokens: &[Token::S, Token::SE, Token::PSK] },
            ],
        };
        assert(r@.pre_initiator =~= Self::spec_handshake().pre_initiator);
        assert(r@.pre_responder =~= Self::spec_handshake().pre_responder);
        assert(r@.messages =~~= Self::spec_handshake().messages);
        r
    }
}

/// The `XXpsk3` pattern: the `XX` pattern with a pre-shared key mixed
/// in at the end of the third message.
/// 
/// See [NoiseExplorer: XXpsk3](https://noiseexplorer.com/patterns/XXpsk3).
#[derive(Copy, Clone)]
pub struct XXpsk3;

impl Pattern for XXpsk3 {
    open spec fn spec_name() -> Seq<char> {
        "XXpsk3"@
    }

    open spec fn spec_handshake() -> PatternSpec {
        PatternSpec {
            pre_initiator: seq![],
            pre_responder: seq![],
            messages: seq![seq![Token::E], seq![Token::E, Token::EE, Token::S, Token::ES], seq![Token::S, Token::SE, Token::PSK]],
        }
    }

    proof fn lemma_pre_messages() {
    }

    proof fn lemma_shape() {
        reveal_with_fuel(token_count, 8);
        reveal_with_fuel(sent_count, 4);
    }

    proof fn lemma_keys_flow() {
        reveal_with_fuel(keys_flow_from, 4);
        reveal_with_fuel(history, 4);
        reveal_with_fuel(writer_keys_known, 7);
        reveal_with_fuel(has_token, 7);
    }

    fn name() -> (r: &'static str) {
        "XXpsk3"
    }

    fn handshake() -> (r: HandshakePattern) {
        let r = HandshakePattern {
            pre_messages_initiator: &[],
            pre_messages_responder: &[],
            messages: &[
                MessagePattern { tokens: &[Token::E] },
                MessagePattern { tokens: &[Token::E, Token::EE, Token::S, Token::ES] },
                MessagePattern { tokens: &[Token::S, Token::SE, Token::PSK] },
            ],
        };
        assert(r@.pre_initiator =~= Self::spec_handshake().pre_initiator);
        assert(r@.pre_responder =~= Self::spec_handshake().pre_responder);
        assert(r@.messages =~~= Self::spec_handshake().messages);
        r
    }
}

/// The `KNpsk0` pattern: the `KN` pattern with a pre-shared key mixed
/// in at the start of the first message.
/// 
/// See [NoiseExplorer: KNpsk0](https://noiseexplorer.com/patterns/KNpsk0).
#[derive(Copy, Clone)]
pub struct KNpsk0;

impl Pattern for KNpsk0 {
    open spec fn spec_name() -> Seq<char> {
        "KNpsk0"@
    }

    open spec fn spec_handshake() -> PatternSpec {
        PatternSpec {
            pre_initiator: seq![Token::S],
            pre_responder: seq![],
            messages: seq![seq![Token::PSK, Token::E], seq![Token::E, Token::EE, Token::SE]],
        }
    }

    proof fn lemma_pre_messages() {
    }

    proof fn lemma_shape() {
        reveal_with_fuel(token_count, 8);
        reveal_with_fuel(sent_count, 4);
    }

    proof fn lemma_keys_flow() {
        reveal_with_fuel(keys_flow_from, 4);
        reveal_with_fuel(history, 4);
        reveal_with_fuel(writer_keys_known, 7);
        reveal_with_fuel(has_token, 7);
    }

    fn name() -> (r: &'static str) {
        "KNpsk0"
    }

    fn handshake() -> (r: HandshakePattern) {
        let r = HandshakePattern {
            pre_messages_initiator: &[Token::S],
            pre_messages_responder: &[],
            messages: &[
                MessagePattern { tokens: &[Token::PSK, Token::E] },
                MessagePattern { tokens: &[Token::E, Token::EE, Token::SE] },
            ],
        };
        assert(r@.pre_initiator =~= Self::spec_handshake().pre_initiator);
        assert(r@.pre_responder =~= Self::spec_handshake().pre_responder);
        assert(r@.messages =~~= Self::spec_handshake().messages);
        r
    }
}

/// The `KNpsk2` pattern: the `KN` pattern with a pre-shared key mixed
/// in at the end of the second message.
/// 
/// See [NoiseExplorer: KNpsk2](https://noiseexplorer.com/patterns/KNpsk2).
#[derive(Copy, Clone)]
pub struct KNpsk2;

impl Pattern for KNpsk2 {
    open spec fn spec_name() -> Seq<char> {
        "KNpsk2"@
    }

    open spec fn spec_handshake() -> PatternSpec {
        PatternSpec {
            pre_initiator: seq![Token::S],
            pre_responder: seq![],
            messages: seq![seq![Token::E], seq![Token::E, Token::EE, Token::SE, Token::PSK]],
        }
    }

    proof fn lemma_pre_messages() {
    }

    proof fn lemma_shape() {
        reveal_with_fuel(token_count, 8);
        reveal_with_fuel(sent_count, 4);
    }

    proof fn lemma_keys_flow() {
        reveal_with_fuel(keys_flow_from, 4);
        reveal_with_fuel(history, 4);
        reveal_with_fuel(writer_keys_known, 7);
        reveal_with_fuel(has_token, 7);
    }

    fn name() -> (r: &'static str) {
        "KNpsk2"
    }

    fn handshake() -> (r: HandshakePattern) {
        let r = HandshakePattern {
            pre_messages_initiator: &[Token::S],
            pre_messages_responder: &[],
            messages: &[
                MessagePattern { tokens: &[Token::E] },
                MessagePattern { tokens: &[Token::E, Token::EE, Token::SE, Token::PSK] },
            ],
        };
        assert(r@.pre_initiator =~= Self::spec_handshake().pre_initiator);
        assert(r@.pre_responder =~= Self::spec_handshake().pre_responder);
        assert(r@.messages =~~= Self::spec_handshake().messages);
        r
    }
}

/// The `KKpsk0` pattern: the `KK` pattern with a pre-shared key mixed
/// in at the end of the second message.
/// 
/// See [NoiseExplorer: KKpsk0](https://noiseexplorer.com/patterns/KKpsk0).
#[derive(Copy, Clone)]
pub struct KKpsk0;

impl Pattern for KKpsk0 {
    open spec fn spec_name() -> Seq<char> {
        "KKpsk0"@
    }

    open spec fn spec_handshake() -> PatternSpec {
        PatternSpec {
            pre_initiator: seq![Token::S],
            pre_responder: seq![Token::S],
            messages: seq![seq![Token::PSK, Token::E, Token::ES, Token::SS], seq![Token::E, Token::EE, Token::SE]],
        }
    }

    proof fn lemma_pre_messages() {
    }

    proof fn lemma_shape() {
        reveal_with_fuel(token_count, 8);
        reveal_with_fuel(sent_count, 4);
    }

    proof fn lemma_keys_flow() {
        reveal_with_fuel(keys_flow_from, 4);
        reveal_with_fuel(history, 4);
        reveal_with_fuel(writer_keys_known, 7);
        reveal_with_fuel(has_token, 7);
    }

    fn name() -> (r: &'static str) {
        "KKpsk0"
    }

    fn handshake() -> (r: HandshakePattern) {
        let r = HandshakePattern {
            pre_messages_initiator: &[Token::S],
            pre_messages_responder: &[Token::S],
            messages: &[
                MessagePattern { tokens: &[Token::PSK, Token::E, Token::ES, Token::SS] },
                MessagePattern { tokens: &[Token::E, Token::EE, Token::SE] },
            ],
        };
        assert(r@.pre_initiator =~= Self::spec_handshake().pre_initiator);
        assert(r@.pre_responder =~= Self::spec_handshake().pre_responder);
        assert(r@.messages =~~= Self::spec_handshake().messages);
        r
    }
}

/// The `KKpsk2` pattern: the `KK` pattern with a pre-shared key mixed
/// in at the end of the second message.
/// 
/// See [NoiseExplorer: KKpsk2](https://noiseexplorer.com/patterns/KKpsk2).
#[derive(Copy, Clone)]
pub struct KKpsk2;

impl Pattern for KKpsk2 {
    open spec fn spec_name() -> Seq<char> {
        "KKpsk2"@
    }

    open spec fn spec_handshake() -> PatternSpec {
        PatternSpec {
            pre_initiator: seq![Token::S],
            pre_responder: seq![Token::S],
            messages: seq![seq![Token::E, Token::ES, Token::SS], seq![Token::E, Token::EE, Token::SE, Token::PSK]],
        }
    }

    proof fn lemma_pre_messages() {
    }

    proof fn lemma_shape() {
        reveal_with_fuel(token_count, 8);
        reveal_with_fuel(sent_count, 4);
    }

    proof fn lemma_keys_flow() {
        reveal_with_fuel(keys_flow_from, 4);
        reveal_with_fuel(history, 4);
        reveal_with_fuel(writer_keys_known, 7);
        reveal_with_fuel(has_token, 7);
    }

    fn name() -> (r: &'static str) {
        "KKpsk2"
    }

    fn handshake() -> (r: HandshakePattern) {
        let r = HandshakePattern {
            pre_messages_initiator: &[Token::S],
            pre_messages_responder: &[Token::S],
            messages: &[
                MessagePattern { tokens: &[Token::E, Token::ES, Token::SS] },
                MessagePattern { tokens: &[Token::E, Token::EE, Token::SE, Token::PSK] },
            ],
        };
        assert(r@.pre_initiator =~= Self::spec_handshake().pre_initiator);
        assert(r@.pre_responder =~= Self::spec_handshake().pre_responder);
        assert(r@.messages =~~= Self::spec_handshake().messages);
        r
    }
}

/// The `KXpsk2` pattern: the `KX` pattern with a pre-shared key mixed
/// in at the end of the second message.
/// 
/// See [NoiseExplorer: KXpsk2](https://noiseexplorer.com/patterns/KXpsk2).
#[derive(Copy, Clone)]
pub struct KXpsk2;

impl Pattern for KXpsk2 {
    open spec fn spec_name() -> Seq<char> {
        "KXpsk2"@
    }

    open spec fn spec_handshake() -> PatternSpec {
        PatternSpec {
            pre_initiator: seq![Token::S],
            pre_responder: seq![],
            messages: seq![seq![Token::E], seq![Token::E, Token::EE, Token::SE, Token::S, Token::ES, Token::PSK]],
        }
    }

    proof fn lemma_pre_messages() {
    }

    proof fn lemma_shape() {
        reveal_with_fuel(token_count, 8);
        reveal_with_fuel(sent_count, 4);
    }

    proof fn lemma_keys_flow() {
        reveal_with_fuel(keys_flow_from, 4);
        reveal_with_fuel(history, 4);
        reveal_with_fuel(writer_keys_known, 7);
        reveal_with_fuel(has_token, 7);
    }

    fn name() -> (r: &'static str) {
        "KXpsk2"
    }

    fn handshake() -> (r: HandshakePattern) {
        let r = HandshakePattern {
            pre_messages_initiator: &[Token::S],
            pre_messages_responder: &[],
            messages: &[
                MessagePattern { tokens: &[Token::E] },
                MessagePattern { tokens: &[Token::E, Token::EE, Token::SE, Token::S, Token::ES, Token::PSK] },
            ],
        };
        assert(r@.pre_initiator =~= Self::spec_handshake().pre_initiator);
        assert(r@.pre_responder =~= Self::spec_handshake().pre_responder);
        assert(r@.messages =~~= Self::spec_handshake().messages);
        r
    }
}

/// The `INpsk1` pattern: the `IN` pattern with a pre-shared key mixed
/// in at the end of the first message.
/// 
/// See [NoiseExplorer: INpsk1](https://noiseexplorer.com/patterns/INpsk1).
#[derive(Copy, Clone)]
pub struct INpsk1;

impl Pattern for INpsk1 {
    open spec fn spec_name() -> Seq<char> {
        "INpsk1"@
    }

    open spec fn spec_handshake() -> PatternSpec {
        PatternSpec {
            pre_initiator: seq![],
            pre_responder: seq![],
            messages: seq![seq![Token::E, Token::S, Token::PSK], seq![Token::E, Token::EE, Token::SE]],
        }
    }

    proof fn lemma_pre_messages() {
    }

    proof fn lemma_shape() {
        reveal_with_fuel(token_count, 8);
        reveal_with_fuel(sent_count, 4);
    }

    proof fn lemma_keys_flow() {
        reveal_with_fuel(keys_flow_from, 4);
        reveal_with_fuel(history, 4);
        reveal_with_fuel(writer_keys_known, 7);
        reveal_with_fuel(has_token, 7);
    }

    fn name() -> (r: &'static str) {
        "INpsk1"
    }

    fn handshake() -> (r: HandshakePattern) {
        let r = HandshakePattern {
            pre_messages_initiator: &[],
            pre_messages_responder: &[],
            messages: &[
                MessagePattern { tokens: &[Token::E, Token::S, Token::PSK] },
                MessagePattern { tokens: &[Token::E, Token::EE, Token::SE] },
            ],
        };
        assert(r@.pre_initiator =~= Self::spec_handshake().pre_initiator);
        assert(r@.pre_responder =~= Self::spec_handshake().pre_responder);
        assert(r@.messages =~~= Self::spec_handshake().messages);
        r
    }
}

/// The `INpsk2` pattern: the `IN` pattern with a pre-shared key mixed
/// in at the end of the second message.
/// 
/// See [NoiseExplorer: INpsk2](https://noiseexplorer.com/patterns/INpsk2).
#[derive(Copy, Clone)]
pub struct INpsk2;

impl Pattern for INpsk2 {
    open spec fn spec_name() -> Seq<char> {
        "INpsk2"@
    }

    open spec fn spec_handshake() -> PatternSpec {
        PatternSpec {
            pre_initiator: seq![],
            pre_responder: seq![],
            messages: seq![seq![Token::E, Token::S], seq![Token::E, Token::EE, Token::SE, Token::PSK]],
        }
    }

    proof fn lemma_pre_messages() {
    }

    proof fn lemma_shape() {
        reveal_with_fuel(token_count, 8);
        reveal_with_fuel(sent_count, 4);
    }

    proof fn lemma_keys_flow() {
        reveal_with_fuel(keys_flow_from, 4);
        reveal_with_fuel(history, 4);
        reveal_with_fuel(writer_keys_known, 7);
        reveal_with_fuel(has_token, 7);
    }

    fn name() -> (r: &'static str) {
        "INpsk2"
    }

    fn handshake() -> (r: HandshakePattern) {
        let r = HandshakePattern {
            pre_messages_initiator: &[],
            pre_messages_responder: &[],
            messages: &[
                MessagePattern { tokens: &[Token::E, Token::S] },
                MessagePattern { tokens: &[Token::E, Token::EE, Token::SE, Token::PSK] },
            ],
        };
        assert(r@.pre_initiator =~= Self::spec_handshake().pre_initiator);
        assert(r@.pre_responder =~= Self::spec_handshake().pre_responder);
        assert(r@.messages =~~= Self::spec_handshake().messages);
        r
    }
}

/// The `IKpsk1` pattern: the `IK` pattern with a pre-shared key mixed
/// in at the end of the first message.
/// 
/// See [NoiseExplorer: IKpsk1](https://noiseexplorer.com/patterns/IKpsk1).
#[derive(Copy, Clone)]
pub struct IKpsk1;

impl Pattern for IKpsk1 {
    open spec fn spec_name() -> Seq<char> {
        "IKpsk1"@
    }

    open spec fn spec_handshake() -> PatternSpec {
        PatternSpec {
            pre_initiator: seq![],
            pre_responder: seq![Token::S],
            messages: seq![seq![Token::E, Token::ES, Token::S, Token::SS, Token::PSK], seq![Token::E, Token::EE, Token::SE]],
        }
    }

    proof fn lemma_pre_messages() {
    }

    proof fn lemma_shape() {
        reveal_with_fuel(token_count, 8);
        reveal_with_fuel(sent_count, 4);
    }

    proof fn lemma_keys_flow() {
        reveal_with_fuel(keys_flow_from, 4);
        reveal_with_fuel(history, 4);
        reveal_with_fuel(writer_keys_known, 7);
        reveal_with_fuel(has_token, 7);
    }

    fn name() -> (r: &'static str) {
        "IKpsk1"
    }

    fn handshake() -> (r: HandshakePattern) {
        let r = HandshakePattern {
            pre_messages_initiator: &[],
            pre_messages_responder: &[Token::S],
            messages: &[
                MessagePattern { tokens: &[Token::E, Token::ES, Token::S, Token::SS, Token::PSK] },
                MessagePattern { tokens: &[Token::E, Token::EE, Token::SE] },
            ],
        };
        assert(r@.pre_initiator =~= Self::spec_handshake().pre_initiator);
        assert(r@.pre_responder =~= Self::spec_handshake().pre_responder);
        assert(r@.messages =~~= Self::spec_handshake().messages);
        r
    }
}

/// The `IKpsk2` pattern: the `IK` pattern with a pre-shared key mixed
/// in at the end of the second message.
/// 
/// See [NoiseExplorer: IKpsk2](https://noiseexplorer.com/patterns/IKpsk2).
#[derive(Copy, Clone)]
pub struct IKpsk2;

impl Pattern for IKpsk2 {
    open spec fn spec_name() -> Seq<char> {
        "IKpsk2"@
    }

    open spec fn spec_handshake() -> PatternSpec {
        PatternSpec {
            pre_initiator: seq![],
            pre_responder: seq![Token::S],
            messages: seq![seq![Token::E, Token::ES, Token::S, Token::SS], seq![Token::E, Token::EE, Token::SE, Token::PSK]],
        }
    }

    proof fn lemma_pre_messages() {
    }

    proof fn lemma_shape() {
        reveal_with_fuel(token_count, 8);
        reveal_with_fuel(sent_count, 4);
    }

    proof fn lemma_keys_flow() {
        reveal_with_fuel(keys_flow_from, 4);
        reveal_with_fuel(history, 4);
        reveal_with_fuel(writer_keys_known, 7);
        reveal_with_fuel(has_token, 7);
    }

    fn name() -> (r: &'static str) {
        "IKpsk2"
    }

    fn handshake() -> (r: HandshakePattern) {
        let r = HandshakePattern {
            pre_messages_initiator: &[],
            pre_messages_responder: &[Token::S],
            messages: &[
                MessagePattern { tokens: &[Token::E, Token::ES, Token::S, Token::SS] },
                MessagePattern { tokens: &[Token::E, Token::EE, Token::SE, Token::PSK] },
            ],
        };
        assert(r@.pre_initiator =~= Self::spec_handshake().pre_initiator);
        assert(r@.pre_responder =~= Self::spec_handshake().pre_responder);
        assert(r@.messages =~~= Self::spec_handshake().messages);
        r
    }
}

/// The `IXpsk2` pattern: the `IX` pattern with a pre-shared key mixed
/// in at the end of the second message.
/// 
/// See [NoiseExplorer: IXpsk2](https://noiseexplorer.com/patterns/IXpsk2).
#[derive(Copy, Clone)]
pub struct IXpsk2;

impl Pattern for IXpsk2 {
    open spec fn spec_name() -> Seq<char> {
        "IXpsk2"@
    }

    open spec fn spec_handshake() -> PatternSpec {
        PatternSpec {
            pre_initiator: seq![],
            pre_responder: seq![],
            messages: seq![seq![Token::E, Token::S], seq![Token::E, Token::EE, Token::SE, Token::S, Token::ES, Token::PSK]],
        }
    }

    proof fn lemma_pre_messages() {
    }

    proof fn lemma_shape() {
        reveal_with_fuel(token_count, 8);
        reveal_with_fuel(sent_count, 4);
    }

    proof fn lemma_keys_flow() {
        reveal_with_fuel(keys_flow_from, 4);
        reveal_with_fuel(history, 4);
        reveal_with_fuel(writer_keys_known, 7);
        reveal_with_fuel(has_token, 7);
    }

    fn name() -> (r: &'static str) {
        "IXpsk2"
    }

    fn handshake() -> (r: HandshakePattern) {
        let r = HandshakePattern {
            pre_messages_initiator: &[],
            pre_messages_responder: &[],
            messages: &[
                MessagePattern { tokens: &[Token::E, Token::S] },
                MessagePattern { tokens: &[Token::E, Token::EE, Token::SE, Token::S, Token::ES, Token::PSK] },
            ],
        };
        assert(r@.pre_initiator =~= Self::spec_handshake().pre_initiator);
        assert(r@.pre_responder =~= Self::spec_handshake().pre_responder);
        assert(r@.messages =~~= Self::spec_handshake().messages);
        r
    }
}


/// Every pattern of this crate is the Noise pattern of its name, as the
/// Noise specification (sections 7.4, 7.5 and 9.4) and Noise Explorer
/// list it: the same pre-messages, and the same tokens in the same order in
/// each message. In `IK`, for instance, the initiator sends its static key
/// only after `es` has set a cipher key.
pub proof fn lemma_noise_pattern_table()
    ensures
        N::spec_name() == "N"@,
        N::spec_handshake() =~~= (PatternSpec { pre_initiator: Seq::<Token>::empty(), pre_responder: seq![Token::S], messages: seq![seq![Token::E, Token::ES]] }),
        K::spec_name() == "K"@,
        K::spec_handshake() =~~= (PatternSpec { pre_initiator: seq![Token::S], pre_responder: seq![Token::S], messages: seq![seq![Token::E, Token::ES, Token::SS]] }),
        X::spec_name() == "X"@,
        X::spec_handshake() =~~= (PatternSpec { pre_initiator: Seq::<Token>::empty(), pre_responder: seq![Token::S], messages: seq![seq![Token::E, Token::ES, Token::S, Token::SS]] }),
        NN::spec_name() == "NN"@,
        NN::spec_handshake() =~~= (PatternSpec { pre_initiator: Seq::<Token>::empty(), pre_responder: Seq::<Token>::empty(), messages: seq![seq![Token::E], seq![Token::E, Token::EE]] }),
        NK::spec_name() == "NK"@,
        NK::spec_handshake() =~~= (PatternSpec { pre_initiator: Seq::<Token>::empty(), pre_responder: seq![Token::S], messages: seq![seq![Token::E, Token::ES], seq![Token::E, Token::EE]] }),
        NX::spec_name() == "NX"@,
        NX::spec_handshake() =~~= (PatternSpec { pre_initiator: Seq::<Token>::empty(), pre_responder: Seq::<Token>::empty(), messages: seq![seq![Token::E], seq![Token::E, Token::EE, Token::S, Token::ES]] }),
        XN::spec_name() == "XN"@,
        XN::spec_handshake() =~~= (PatternSpec { pre_initiator: Seq::<Token>::empty(), pre_responder: Seq::<Token>::empty(), messages: seq![seq![Token::E], seq![Token::E, Token::EE], seq![Token::S, Token::SE]] }),
        XK::spec_name() == "XK"@,
        XK::spec_handshake() =~~= (PatternSpec { pre_initiator: Seq::<Token>::empty(), pre_responder: seq![Token::S], messages: seq![seq![Token::E, Token::ES], seq![Token::E, Token::EE], seq![Token::S, Token::SE]] }),
        XX::spec_name() == "XX"@,
        XX::spec_handshake() =~~= (PatternSpec { pre_initiator: Seq::<Token>::empty(), pre_responder: Seq::<Token>::empty(), messages: seq![seq![Token::E], seq![Token::E, Token::EE, Token::S, Token::ES], seq![Token::S, Token::SE]] }),
        KN::spec_name() == "KN"@,
        KN::spec_handshake() =~~= (PatternSpec { pre_initiator: seq![Token::S], pre_responder: Seq::<Token>::empty(), messages: seq![seq![Token::E], seq![Token::E, Token::EE, Token::SE]] }),
        KK::spec_name() == "KK"@,
        KK::spec_handshake() =~~= (PatternSpec { pre_initiator: seq![Token::S], pre_responder: seq![Token::S], messages: seq![seq![Token::E, Token::ES, Token::SS], seq![Token::E, Token::EE, Token::SE]] }),
        KX::spec_name() == "KX"@,
        KX::spec_handshake() =~~= (PatternSpec { pre_initiator: seq![Token::S], pre_responder: Seq::<Token>::empty(), messages: seq![seq![Token::E], seq![Token::E, Token::EE, Token::SE, Token::S, Token::ES]] }),
        IN::spec_name() == "IN"@,
        IN::spec_handshake() =~~= (PatternSpec { pre_initiator: Seq::<Token>::empty(), pre_responder: Seq::<Token>::empty(), messages: seq![seq![Token::E, Token::S], seq![Token::E, Token::EE, Token::SE]] }),
        IK::spec_name() == "IK"@,
        IK::spec_handshake() =~~= (PatternSpec { pre_initiator: Seq::<Token>::empty(), pre_responder: seq![Token::S], messages: seq![seq![Token::E, Token::ES, Token::S, Token::SS], seq![Token::E, Token::EE, Token::SE]] }),
        IX::spec_name() == "IX"@,
        IX::spec_handshake() =~~= (PatternSpec { pre_initiator: Seq::<Token>::empty(), pre_responder: Seq::<Token>::empty(), messages: seq![seq![Token::E, Token::S], seq![Token::E, Token::EE, Token::SE, Token::S, Token::ES]] }),
        Npsk0::spec_name() == "Npsk0"@,
        Npsk0::spec_handshake() =~~= (PatternSpec { pre_initiator: Seq::<Token>::empty(), pre_responder: seq![Token::S], messages: seq![seq![Token::PSK, Token::E, Token::ES]] }),
        Kpsk0::spec_name() == "Kpsk0"@,
        Kpsk0::spec_handshake() =~~= (PatternSpec { pre_initiator: seq![Token::S], pre_responder: seq![Token::S], messages: seq![seq![Token::PSK, Token::E, Token::ES, Token::SS]] }),
        Xpsk1::spec_name() == "Xpsk1"@,
        Xpsk1::spec_handshake() =~~= (PatternSpec { pre_initiator: Seq::<Token>::empty(), pre_responder: seq![Token::S], messages: seq![seq![Token::E, Token::ES, Token::S, Token::SS, Token::PSK]] }),
        NNpsk0::spec_name() == "NNpsk0"@,
        NNpsk0::spec_handshake() =~~= (PatternSpec { pre_initiator: Seq::<Token>::empty(), pre_responder: Seq::<Token>::empty(), messages: seq![seq![Token::PSK, Token::E], seq![Token::E, Token::EE]] }),
        NNpsk2::spec_name() == "NNpsk2"@,
        NNpsk2::spec_handshake() =~~= (PatternSpec { pre_initiator: Seq::<Token>::empty(), pre_responder: Seq::<Token>::empty(), messages: seq![seq![Token::E], seq![Token::E, Token::EE, Token::PSK]] }),
        NKpsk0::spec_name() == "NKpsk0"@,
        NKpsk0::spec_handshake() =~~= (PatternSpec { pre_initiator: Seq::<Token>::empty(), pre_responder: seq![Token::S], messages: seq![seq![Token::PSK, Token::E, Token::ES], seq![Token::E, Token::EE]] }),
        NKpsk2::spec_name() == "NKpsk2"@,
        NKpsk2::spec_handshake() =~~= (PatternSpec { pre_initiator: Seq::<Token>::empty(), pre_responder: seq![Token::S], messages: seq![seq![Token::E, Token::ES], seq![Token::E, Token::EE, Token::PSK]] }),
        NXpsk2::spec_name() == "NXpsk2"@,
        NXpsk2::spec_handshake() =~~= (PatternSpec { pre_initiator: Seq::<Token>::empty(), pre_responder: Seq::<Token>::empty(), messages: seq![seq![Token::E], seq![Token::E, Token::EE, Token::S, Token::ES, Token::PSK]] }),
        XNpsk3::spec_name() == "XNpsk3"@,
        XNpsk3::spec_handshake() =~~= (PatternSpec { pre_initiator: Seq::<Token>::empty(), pre_responder: Seq::<Token>::empty(), messages: seq![seq![Token::E], seq![Token::E, Token::EE], seq![Token::S, Token::SE, Token::PSK]] }),
        XKpsk3::spec_name() == "XKpsk3"@,
        XKpsk3::spec_handshake() =~~= (PatternSpec { pre_initiator: Seq::<Token>::empty(), pre_responder: seq![Token::S], messages: seq![seq![Token::E, Token::ES], seq![Token::E, Token::EE], seq![Token::S, Token::SE, Token::PSK]] }),
        XXpsk3::spec_name() == "XXpsk3"@,
        XXpsk3::spec_handshake() =~~= (PatternSpec { pre_initiator: Seq::<Token>::empty(), pre_responder: Seq::<Token>::empty(), messages: seq![seq![Token::E], seq![Token::E, Token::EE, Token::S, Token::ES], seq![Token::S, Token::SE, Token::PSK]] }),
        KNpsk0::spec_name() == "KNpsk0"@,
        KNpsk0::spec_handshake() =~~= (PatternSpec { pre_initiator: seq![Token::S], pre_responder: Seq::<Token>::empty(), messages: seq![seq![Token::PSK, Token::E], seq![Token::E, Token::EE, Token::SE]] }),
        KNpsk2::spec_name() == "KNpsk2"@,
        KNpsk2::spec_handshake() =~~= (PatternSpec { pre_initiator: seq![Token::S], pre_responder: Seq::<Token>::empty(), messages: seq![seq![Token::E], seq![Token::E, Token::EE, Token::SE, Token::PSK]] }),
        KKpsk0::spec_name() == "KKpsk0"@,
        KKpsk0::spec_handshake() =~~= (PatternSpec { pre_initiator: seq![Token::S], pre_responder: seq![Token::S], messages: seq![seq![Token::PSK, Token::E, Token::ES, Token::SS], seq![Token::E, Token::EE, Token::SE]] }),
        KKpsk2::spec_name() == "KKpsk2"@,
        KKpsk2::spec_handshake() =~~= (PatternSpec { pre_initiator: seq![Token::S], pre_responder: seq![Token::S], messages: seq![seq![Token::E, Token::ES, Token::SS], seq![Token::E, Token::EE, Token::SE, Token::PSK]] }),
        KXpsk2::spec_name() == "KXpsk2"@,
        KXpsk2::spec_handshake() =~~= (PatternSpec { pre_initiator: seq![Token::S], pre_responder: Seq::<Token>::empty(), messages: seq![seq![Token::E], seq![Token::E, Token::EE, Token::SE, Token::S, Token::ES, Token::PSK]] }),
        INpsk1::spec_name() == "INpsk1"@,
        INpsk1::spec_handshake() =~~= (PatternSpec { pre_initiator: Seq::<Token>::empty(), pre_responder: Seq::<Token>::empty(), messages: seq![seq![Token::E, Token::S, Token::PSK], seq![Token::E, Token::EE, Token::SE]] }),
        INpsk2::spec_name() == "INpsk2"@,
        INpsk2::spec_handshake() =~~= (PatternSpec { pre_initiator: Seq::<Token>::empty(), pre_responder: Seq::<Token>::empty(), messages: seq![seq![Token::E, Token::S], seq![Token::E, Token::EE, Token::SE, Token::PSK]] }),
        IKpsk1::spec_name() == "IKpsk1"@,
        IKpsk1::spec_handshake() =~~= (PatternSpec { pre_initiator: Seq::<Token>::empty(), pre_responder: seq![Token::S], messages: seq![seq![Token::E, Token::ES, Token::S, Token::SS, Token::PSK], seq![Token::E, Token::EE, Token::SE]] }),
        IKpsk2::spec_name() == "IKpsk2"@,
        IKpsk2::spec_handshake() =~~= (PatternSpec { pre_initiator: Seq::<Token>::empty(), pre_responder: seq![Token::S], messages: seq![seq![Token::E, Token::ES, Token::S, Token::SS], seq![Token::E, Token::EE, Token::SE, Token::PSK]] }),
        IXpsk2::spec_name() == "IXpsk2"@,
        IXpsk2::spec_handshake() =~~= (PatternSpec { pre_initiator: Seq::<Token>::empty(), pre_responder: Seq::<Token>::empty(), messages: seq![seq![Token::E, Token::S], seq![Token::E, Token::EE, Token::SE, Token::S, Token::ES, Token::PSK]] }),
{
    assert(N::spec_handshake() =~~= (PatternSpec { pre_initiator: Seq::<Token>::empty(), pre_responder: seq![Token::S], messages: seq![seq![Token::E, Token::ES]] }));
    assert(K::spec_handshake() =~~= (PatternSpec { pre_initiator: seq![Token::S], pre_responder: seq![Token::S], messages: seq![seq![Token::E, Token::ES, Token::SS]] }));
    assert(X::spec_handshake() =~~= (PatternSpec { pre_initiator: Seq::<Token>::empty(), pre_responder: seq![Token::S], messages: seq![seq![Token::E, Token::ES, Token::S, Token::SS]] }));
    assert(NN::spec_handshake() =~~= (PatternSpec { pre_initiator: Seq::<Token>::empty(), pre_responder: Seq::<Token>::empty(), messages: seq![seq![Token::E], seq![Token::E, Token::EE]] }));
    assert(NK::spec_handshake() =~~= (PatternSpec { pre_initiator: Seq::<Token>::empty(), pre_responder: seq![Token::S], messages: seq![seq![Token::E, Token::ES], seq![Token::E, Token::EE]] }));
    assert(NX::spec_handshake() =~~= (PatternSpec { pre_initiator: Seq::<Token>::empty(), pre_responder: Seq::<Token>::empty(), messages: seq![seq![Token::E], seq![Token::E, Token::EE, Token::S, Token::ES]] }));
    assert(XN::spec_handshake() =~~= (PatternSpec { pre_initiator: Seq::<Token>::empty(), pre_responder: Seq::<Token>::empty(), messages: seq![seq![Token::E], seq![Token::E, Token::EE], seq![Token::S, Token::SE]] }));
    assert(XK::spec_handshake() =~~= (PatternSpec { pre_initiator: Seq::<Token>::empty(), pre_responder: seq![Token::S], messages: seq![seq![Token::E, Token::ES], seq![Token::E, Token::EE], seq![Token::S, Token::SE]] }));
    assert(XX::spec_handshake() =~~= (PatternSpec { pre_initiator: Seq::<Token>::empty(), pre_responder: Seq::<Token>::empty(), messages: seq![seq![Token::E], seq![Token::E, Token::EE, Token::S, Token::ES], seq![Token::S, Token::SE]] }));
    assert(KN::spec_handshake() =~~= (PatternSpec { pre_initiator: seq![Token::S], pre_responder: Seq::<Token>::empty(), messages: seq![seq![Token::E], seq![Token::E, Token::EE, Token::SE]] }));
    assert(KK::spec_handshake() =~~= (PatternSpec { pre_initiator: seq![Token::S], pre_responder: seq![Token::S], messages: seq![seq![Token::E, Token::ES, Token::SS], seq![Token::E, Token::EE, Token::SE]] }));
    assert(KX::spec_handshake() =~~= (PatternSpec { pre_initiator: seq![Token::S], pre_responder: Seq::<Token>::empty(), messages: seq![seq![Token::E], seq![Token::E, Token::EE, Token::SE, Token::S, Token::ES]] }));
    assert(IN::spec_handshake() =~~= (PatternSpec { pre_initiator: Seq::<Token>::empty(), pre_responder: Seq::<Token>::empty(), messages: seq![seq![Token::E, Token::S], seq![Token::E, Token::EE, Token::SE]] }));
    assert(IK::spec_handshake() =~~= (PatternSpec { pre_initiator: Seq::<Token>::empty(), pre_responder: seq![Token::S], messages: seq![seq![Token::E, Token::ES, Token::S, Token::SS], seq![Token::E, Token::EE, Token::SE]] }));
    assert(IX::spec_handshake() =~~= (PatternSpec { pre_initiator: Seq::<Token>::empty(), pre_responder: Seq::<Token>::empty(), messages: seq![seq![Token::E, Token::S], seq![Token::E, Token::EE, Token::SE, Token::S, Token::ES]] }));
    assert(Npsk0::spec_handshake() =~~= (PatternSpec { pre_initiator: Seq::<Token>::empty(), pre_responder: seq![Token::S], messages: seq![seq![Token::PSK, Token::E, Token::ES]] }));
    assert(Kpsk0::spec_handshake() =~~= (PatternSpec { pre_initiator: seq![Token::S], pre_responder: seq![Token::S], messages: seq![seq![Token::PSK, Token::E, Token::ES, Token::SS]] }));
    assert(Xpsk1::spec_handshake() =~~= (PatternSpec { pre_initiator: Seq::<Token>::empty(), pre_responder: seq![Token::S], messages: seq![seq![Token::E, Token::ES, Token::S, Token::SS, Token::PSK]] }));
    assert(NNpsk0::spec_handshake() =~~= (PatternSpec { pre_initiator: Seq::<Token>::empty(), pre_responder: Seq::<Token>::empty(), messages: seq![seq![Token::PSK, Token::E], seq![Token::E, Token::EE]] }));
    assert(NNpsk2::spec_handshake() =~~= (PatternSpec { pre_initiator: Seq::<Token>::empty(), pre_responder: Seq::<Token>::empty(), messages: seq![seq![Token::E], seq![Token::E, Token::EE, Token::PSK]] }));
    assert(NKpsk0::spec_handshake() =~~= (PatternSpec { pre_initiator: Seq::<Token>::empty(), pre_responder: seq![Token::S], messages: seq![seq![Token::PSK, Token::E, Token::ES], seq![Token::E, Token::EE]] }));
    assert(NKpsk2::spec_handshake() =~~= (PatternSpec { pre_initiator: Seq::<Token>::empty(), pre_responder: seq![Token::S], messages: seq![seq![Token::E, Token::ES], seq![Token::E, Token::EE, Token::PSK]] }));
    assert(NXpsk2::spec_handshake() =~~= (PatternSpec { pre_initiator: Seq::<Token>::empty(), pre_responder: Seq::<Token>::empty(), messages: seq![seq![Token::E], seq![Token::E, Token::EE, Token::S, Token::ES, Token::PSK]] }));
    assert(XNpsk3::spec_handshake() =~~= (PatternSpec { pre_initiator: Seq::<Token>::empty(), pre_responder: Seq::<Token>::empty(), messages: seq![seq![Token::E], seq![Token::E, Token::EE], seq![Token::S, Token::SE, Token::PSK]] }));
    assert(XKpsk3::spec_handshake() =~~= (PatternSpec { pre_initiator: Seq::<Token>::empty(), pre_responder: seq![Token::S], messages: seq![seq![Token::E, Token::ES], seq![Token::E, Token::EE], seq![Token::S, Token::SE, Token::PSK]] }));
    assert(XXpsk3::spec_handshake() =~~= (PatternSpec { pre_initiator: Seq::<Token>::empty(), pre_responder: Seq::<Token>::empty(), messages: seq![seq![Token::E], seq![Token::E, Token::EE, Token::S, Token::ES], seq![Token::S, Token::SE, Token::PSK]] }));
    assert(KNpsk0::spec_handshake() =~~= (PatternSpec { pre_initiator: seq![Token::S], pre_responder: Seq::<Token>::empty(), messages: seq![seq![Token::PSK, Token::E], seq![Token::E, Token::EE, Token::SE]] }));
    assert(KNpsk2::spec_handshake() =~~= (PatternSpec { pre_initiator: seq![Token::S], pre_responder: Seq::<Token>::empty(), messages: seq![seq![Token::E], seq![Token::E, Token::EE, Token::SE, Token::PSK]] }));
    assert(KKpsk0::spec_handshake() =~~= (PatternSpec { pre_initiator: seq![Token::S], pre_responder: seq![Token::S], messages: seq![seq![Token::PSK, Token::E, Token::ES, Token::SS], seq![Token::E, Token::EE, Token::SE]] }));
    assert(KKpsk2::spec_handshake() =~~= (PatternSpec { pre_initiator: seq![Token::S], pre_responder: seq![Token::S], messages: seq![seq![Token::E, Token::ES, Token::SS], seq![Token::E, Token::EE, Token::SE, Token::PSK]] }));
    assert(KXpsk2::spec_handshake() =~~= (PatternSpec { pre_initiator: seq![Token::S], pre_responder: Seq::<Token>::empty(), messages: seq![seq![Token::E], seq![Token::E, Token::EE, Token::SE, Token::S, Token::ES, Token::PSK]] }));
    assert(INpsk1::spec_handshake() =~~= (PatternSpec { pre_initiator: Seq::<Token>::empty(), pre_responder: Seq::<Token>::empty(), messages: seq![seq![Token::E, Token::S, Token::PSK], seq![Token::E, Token::EE, Token::SE]] }));
    assert(INpsk2::spec_handshake() =~~= (PatternSpec { pre_initiator: Seq::<Token>::empty(), pre_responder: Seq::<Token>::empty(), messages: seq![seq![Token::E, Token::S], seq![Token::E, Token::EE, Token::SE, Token::PSK]] }));
    assert(IKpsk1::spec_handshake() =~~= (PatternSpec { pre_initiator: Seq::<Token>::empty(), pre_responder: seq![Token::S], messages: seq![seq![Token::E, Token::ES, Token::S, Token::SS, Token::PSK], seq![Token::E, Token::EE, Token::SE]] }));
    assert(IKpsk2::spec_handshake() =~~= (PatternSpec { pre_initiator: Seq::<Token>::empty(), pre_responder: seq![Token::S], messages: seq![seq![Token::E, Token::ES, Token::S, Token::SS], seq![Token::E, Token::EE, Token::SE, Token::PSK]] }));
    assert(IXpsk2::spec_handshake() =~~= (PatternSpec { pre_initiator: Seq::<Token>::empty(), pre_responder: Seq::<Token>::empty(), messages: seq![seq![Token::E, Token::S], seq![Token::E, Token::EE, Token::SE, Token::S, Token::ES, Token::PSK]] }));
}

} // verus!
