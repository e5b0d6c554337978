//! What the two parties of a handshake agree on: a message written by one
//! and read by the other leaves both with the same symmetric state, and the
//! last one gives them paired transport states.

use vstd::prelude::*;

use crate::crypto::cipher::{aead_opens_sealed, Cipher, InternalCipherState};
use crate::crypto::dh::{DHKeypair, DH};
use crate::patterns::{
    has_token, history, keys_flow_from, message_keys_known, sent_by_initiator, uses_writer_e,
    uses_writer_s, writer_keys_known, PatternSpec, Token,
};
use crate::patterns::roles::RoleMarker;
use crate::patterns::Pattern;
use crate::error::{MissingKey, NoiseError};
use crate::state::handshake_state::{
    keypair_has_len, opt_public, spec_dh_keys, spec_initialize, spec_mix_pre_messages, spec_dh_token, spec_read_message, spec_read_token,
    spec_read_tokens, spec_write_message, spec_write_payload, spec_write_token, spec_write_tokens,
    zeros, HandshakeKeysView, HandshakeOutcome, HandshakeStateView, KeypairView, ReadCursor,
    WriteCursor,
};
use crate::state::symmetric_state::{
    lemma_symmetric_roundtrip, spec_decrypt_and_hash, spec_encrypt_and_hash, SymmetricStateView,
};

verus! {

/// A step that does not panic and succeeds.
pub open spec fn ok_step<A, T>(r: Option<(Result<A, NoiseError>, T)>) -> bool {
    r matches Some(x) && x.0 is Ok
}

/// The public key that the DH function `D` derives from the private key
/// `sk`.
pub open spec fn derived_public<D: DH>(sk: Seq<u8>) -> Seq<u8> {
    <D::Keypair as DHKeypair>::spec_derive_public(sk)
}

/// The DH function `D` accepts the public key derived from the private key
/// `sk`.
pub open spec fn accepts_own<D: DH>(sk: Seq<u8>) -> bool {
    D::spec_dh(sk, derived_public::<D>(sk)) is Some
}

/// The DH function `D` lets two parties agree: for private keys `a` and `b`
/// whose public keys it accepts, the secret of `a` with the public key of
/// `b` is the secret of `b` with the public key of `a` (as the contract of
/// [`DH::dh`] states of every call).
pub open spec fn dh_agrees<D: DH>() -> bool {
    forall|a: Seq<u8>, b: Seq<u8>|
        #![trigger D::spec_dh(a, derived_public::<D>(b))]
        a.len() == D::spec_dhlen() && b.len() == D::spec_dhlen() && accepts_own::<D>(a)
            && accepts_own::<D>(b) ==> D::spec_dh(a, derived_public::<D>(b)) == D::spec_dh(
            b,
            derived_public::<D>(a),
        )
}

/// The optional keypair `kp` has the keys of the DH function `D`: both
/// have the length of the function.
pub open spec fn keypair_ok<D: DH>(kp: Option<KeypairView>) -> bool {
    keypair_has_len(kp, D::spec_dhlen())
}

/// The public key of the optional keypair `kp` is derived from its private
/// key and accepted by the DH function `D`.
pub open spec fn keypair_derived<D: DH>(kp: Option<KeypairView>) -> bool {
    kp matches Some(k) ==> k.public == derived_public::<D>(k.private) && accepts_own::<D>(k.private)
}

/// The owners of the keypairs `x` and `y` agree on their DH secret: the
/// secret of `x`'s private key with `y`'s public key is the secret of `y`'s
/// private key with `x`'s public key. [`DH::dh`] states this of the pair of
/// keypairs of every call, when their public keys are derived from their
/// private keys and accepted by the function.
pub open spec fn agree_pair<D: DH>(x: Option<KeypairView>, y: Option<KeypairView>) -> bool {
    match (x, y) {
        (Some(a), Some(b)) => D::spec_dh(a.private, b.public) == D::spec_dh(b.private, a.public),
        _ => true,
    }
}

/// Every local keypair of `a` agrees with every local keypair of `b`.
pub open spec fn keys_agree<D: DH>(a: HandshakeKeysView, b: HandshakeKeysView) -> bool {
    &&& agree_pair::<D>(a.s, b.s)
    &&& agree_pair::<D>(a.s, b.e)
    &&& agree_pair::<D>(a.e, b.s)
    &&& agree_pair::<D>(a.e, b.e)
}

/// The keypair `fresh` agrees with every local keypair of `b`.
pub open spec fn fresh_agrees<D: DH>(fresh: Option<KeypairView>, b: HandshakeKeysView) -> bool {
    agree_pair::<D>(fresh, b.s) && agree_pair::<D>(fresh, b.e)
}

/// Keypairs whose public keys are derived from their private keys agree
/// when the DH function lets any two parties agree.
pub proof fn lemma_pair_agrees<D: DH>(x: Option<KeypairView>, y: Option<KeypairView>)
    requires
        dh_agrees::<D>(),
        keypair_ok::<D>(x),
        keypair_ok::<D>(y),
        keypair_derived::<D>(x),
        keypair_derived::<D>(y),
    ensures
        agree_pair::<D>(x, y),
{
    if x is Some && y is Some {
        let a = x->0.private;
        let b = y->0.private;
        assert(x->0.public == derived_public::<D>(a) && accepts_own::<D>(a));
        assert(y->0.public == derived_public::<D>(b) && accepts_own::<D>(b));
        assert(D::spec_dh(a, derived_public::<D>(b)) == D::spec_dh(b, derived_public::<D>(a)));
    }
}

/// What `a` knows of its peer's keys is right: the remote static and
/// ephemeral keys of `a` are the public keys of the peer `b`.
pub open spec fn knows(a: HandshakeKeysView, b: HandshakeKeysView) -> bool {
    &&& a.rs matches Some(pk) ==> (b.s matches Some(k) && k.public == pk)
    &&& a.re matches Some(pk) ==> (b.e matches Some(k) && k.public == pk)
}

/// What `b` knows of the ephemeral key of `a` follows what `a` sent: the
/// public key of `a`'s ephemeral keypair once `a` has sent it, nothing
/// before.
pub open spec fn sent(a: HandshakeStateView, b: HandshakeStateView) -> bool {
    if a.e_set {
        b.keys.re == opt_public(a.keys.e)
    } else {
        b.keys.re is None
    }
}

/// The two handshake states `a` and `b` are those of two peers at the same
/// point of the handshake: the same symmetric state and step, keys of the
/// DH function `D` whose owners agree on their DH secrets, each knowing the
/// other's keys rightly (the ephemeral ones as far as they were sent), and
/// the same pre-shared key.
pub open spec fn peers<D: DH>(a: HandshakeStateView, b: HandshakeStateView) -> bool {
    &&& a.ss == b.ss
    &&& a.step == b.step
    &&& a.ss.cs.wf()
    &&& a.keys.wf(D::spec_dhlen())
    &&& b.keys.wf(D::spec_dhlen())
    &&& keypair_ok::<D>(a.keys.s)
    &&& keypair_ok::<D>(a.keys.e)
    &&& keypair_ok::<D>(b.keys.s)
    &&& keypair_ok::<D>(b.keys.e)
    &&& keys_agree::<D>(a.keys, b.keys)
    &&& knows(a.keys, b.keys)
    &&& knows(b.keys, a.keys)
    &&& sent(a, b)
    &&& sent(b, a)
    &&& a.keys.psk == b.keys.psk
}

/// A successful write of one token keeps what was written before it, moves
/// forward within the buffer, and keeps the length of the buffer.
proof fn lemma_write_token_prefix<D: DH, C: Cipher, H: crate::crypto::hash::Hash>(
    is_initiator: bool,
    psk: bool,
    c: WriteCursor,
    t: Token,
    fresh: Option<KeypairView>,
)
    requires
        aead_opens_sealed::<C::State>(),
        c.idx <= c.buf.len(),
        c.st.keys.wf(D::spec_dhlen()),
        keypair_ok::<D>(fresh),
        ok_step(spec_write_token::<D, C, H>(is_initiator, psk, c, t, fresh)),
    ensures
        ({
            let c1 = (spec_write_token::<D, C, H>(is_initiator, psk, c, t, fresh)->0).1;
            &&& c.idx <= c1.idx <= c1.buf.len()
            &&& c1.buf.len() == c.buf.len()
            &&& c1.buf.take(c.idx as int) == c.buf.take(c.idx as int)
            &&& c1.st.keys.wf(D::spec_dhlen())
        }),
{
    let c1 = (spec_write_token::<D, C, H>(is_initiator, psk, c, t, fresh)->0).1;
    match t {
        Token::E => {
            let kp = if c.st.keys.e is Some {
                c.st.keys.e->0
            } else {
                fresh->0
            };
            let end = c.idx + D::spec_dhlen();
            assert(c1.buf == c.buf.take(c.idx as int) + kp.public + c.buf.skip(end as int));
            assert(c1.buf.take(c.idx as int) =~= c.buf.take(c.idx as int));
        },
        Token::S => {
            let kp = c.st.keys.s->0;
            let end = c.idx + D::spec_dhlen() + 16;
            let sub = c.buf.subrange(c.idx as int, end as int);
            let enc = spec_encrypt_and_hash::<C, H>(c.st.ss, kp.public, sub);
            if c.st.ss.cs.key() is Some {
                let key = c.st.ss.cs.key()->0;
                assert(C::State::spec_seal(key, c.st.ss.cs.n, c.st.ss.h, kp.public).len()
                    == kp.public.len() + 16);
            }
            assert(enc.2.len() == sub.len());
            assert(c1.buf.take(c.idx as int) =~= c.buf.take(c.idx as int));
        },
        _ => {},
    }
}

/// A successful write of tokens keeps what was written before them, moves
/// forward within the buffer, and keeps the length of the buffer.
proof fn lemma_write_tokens_prefix<D: DH, C: Cipher, H: crate::crypto::hash::Hash>(
    is_initiator: bool,
    psk: bool,
    c: WriteCursor,
    tokens: Seq<Token>,
    fresh: Option<KeypairView>,
)
    requires
        aead_opens_sealed::<C::State>(),
        c.idx <= c.buf.len(),
        c.st.keys.wf(D::spec_dhlen()),
        keypair_ok::<D>(fresh),
        ok_step(spec_write_tokens::<D, C, H>(is_initiator, psk, c, tokens, fresh)),
    ensures
        ({
            let w = (spec_write_tokens::<D, C, H>(is_initiator, psk, c, tokens, fresh)->0).1;
            &&& c.idx <= w.idx <= w.buf.len()
            &&& w.buf.len() == c.buf.len()
            &&& w.buf.take(c.idx as int) == c.buf.take(c.idx as int)
        }),
    decreases tokens.len(),
{
    if tokens.len() > 0 {
        let c1 = (spec_write_token::<D, C, H>(is_initiator, psk, c, tokens[0], fresh)->0).1;
        lemma_write_token_prefix::<D, C, H>(is_initiator, psk, c, tokens[0], fresh);
        lemma_write_tokens_prefix::<D, C, H>(is_initiator, psk, c1, tokens.skip(1), fresh);
        let w = (spec_write_tokens::<D, C, H>(is_initiator, psk, c1, tokens.skip(1), fresh)->0).1;
        assert(w.buf.take(c.idx as int) =~= w.buf.take(c1.idx as int).take(c.idx as int));
        assert(c1.buf.take(c.idx as int) =~= c1.buf.take(c1.idx as int).take(c.idx as int));
    }
}

/// The DH token `t` written by the party `is_initiator` is accepted by the
/// reader when the reader knows the writer's key it uses, and gives both the
/// same secret, so the same symmetric state.
pub proof fn lemma_dh_token_agree<D: DH, H: crate::crypto::hash::Hash>(
    is_initiator: bool,
    w: HandshakeStateView,
    r: HandshakeStateView,
    t: Token,
    e_known: bool,
    s_known: bool,
)
    requires
        peers::<D>(w, r),
        t != Token::E,
        t != Token::S,
        ok_step(spec_dh_token::<D, H>(is_initiator, w, t)),
        e_known ==> r.keys.re == opt_public(w.keys.e),
        s_known ==> r.keys.rs is Some,
        uses_writer_e(is_initiator, t) ==> e_known,
        uses_writer_s(is_initiator, t) ==> s_known,
    ensures
        ok_step(spec_dh_token::<D, H>(!is_initiator, r, t)),
        (spec_dh_token::<D, H>(is_initiator, w, t)->0).1.ss == (spec_dh_token::<D, H>(
            !is_initiator,
            r,
            t,
        )->0).1.ss,
        (spec_dh_token::<D, H>(is_initiator, w, t)->0).1.keys == w.keys,
        (spec_dh_token::<D, H>(!is_initiator, r, t)->0).1.keys == r.keys,
        (spec_dh_token::<D, H>(is_initiator, w, t)->0).1.step == w.step,
        (spec_dh_token::<D, H>(!is_initiator, r, t)->0).1.step == r.step,
        (spec_dh_token::<D, H>(is_initiator, w, t)->0).1.e_set == w.e_set,
        (spec_dh_token::<D, H>(!is_initiator, r, t)->0).1.e_set == r.e_set,
        (spec_dh_token::<D, H>(is_initiator, w, t)->0).1.ss.cs.wf(),
{
    if t != Token::PSK {
        let kw = spec_dh_keys(is_initiator, w.keys, t);
        let kr = spec_dh_keys(!is_initiator, r.keys, t);
        // the writer's remote key is the reader's local keypair, and the
        // other way round
        assert(kw.2 == Some(kr.0->0.public));
        assert(kr.2 == Some(kw.0->0.public));
        assert(agree_pair::<D>(kw.0, kr.0));
    }
}

/// One token written by one party is accepted by its peer reading it from
/// the written bytes, and leaves both at the same point of the handshake.
proof fn lemma_token_agree<D: DH, C: Cipher, H: crate::crypto::hash::Hash>(
    is_initiator: bool,
    psk: bool,
    cw: WriteCursor,
    cr: ReadCursor,
    t: Token,
    fresh: Option<KeypairView>,
    message: Seq<u8>,
    e_known: bool,
    s_known: bool,
)
    requires
        aead_opens_sealed::<C::State>(),
        fresh_agrees::<D>(fresh, cr.st.keys),
        keypair_ok::<D>(fresh),
        peers::<D>(cw.st, cr.st),
        cw.idx == cr.idx,
        cw.idx <= cw.buf.len(),
        ok_step(spec_write_token::<D, C, H>(is_initiator, psk, cw, t, fresh)),
        e_known ==> cr.st.keys.re == opt_public(cw.st.keys.e),
        s_known ==> cr.st.keys.rs is Some,
        uses_writer_e(is_initiator, t) ==> e_known,
        uses_writer_s(is_initiator, t) ==> s_known,
        ({
            let c1 = (spec_write_token::<D, C, H>(is_initiator, psk, cw, t, fresh)->0).1;
            &&& message.len() >= c1.idx
            &&& message.subrange(cw.idx as int, c1.idx as int) == c1.buf.subrange(
                cw.idx as int,
                c1.idx as int,
            )
        }),
    ensures
        ok_step(spec_read_token::<D, C, H>(!is_initiator, psk, cr, t, message)),
        ({
            let c1 = (spec_write_token::<D, C, H>(is_initiator, psk, cw, t, fresh)->0).1;
            let r1 = (spec_read_token::<D, C, H>(!is_initiator, psk, cr, t, message)->0).1;
            &&& peers::<D>(c1.st, r1.st)
            &&& c1.idx == r1.idx
            &&& (e_known || t == Token::E) ==> r1.st.keys.re == opt_public(c1.st.keys.e)
            &&& (s_known || t == Token::S) ==> r1.st.keys.rs is Some
            &&& r1.st.keys.s == cr.st.keys.s
            &&& r1.st.keys.e == cr.st.keys.e
        }),
{
    let c1 = (spec_write_token::<D, C, H>(is_initiator, psk, cw, t, fresh)->0).1;
    let r1 = (spec_read_token::<D, C, H>(!is_initiator, psk, cr, t, message)->0).1;
    let idx = cw.idx;
    match t {
        Token::E => {
            let kp = if cw.st.keys.e is Some {
                cw.st.keys.e->0
            } else {
                fresh->0
            };
            let end = idx + D::spec_dhlen();
            assert(c1.buf.subrange(idx as int, end as int) =~= kp.public);
            assert(r1.st.keys.re == Some(kp.public));
        },
        Token::S => {
            let kp = cw.st.keys.s->0;
            let end = idx + D::spec_dhlen() + 16;
            let sub = cw.buf.subrange(idx as int, end as int);
            let enc = spec_encrypt_and_hash::<C, H>(cw.st.ss, kp.public, sub);
            let n = enc.0->Ok_0;
            lemma_symmetric_roundtrip::<C, H>(cw.st.ss, kp.public, sub, zeros(D::spec_dhlen() + 16));
            if cw.st.ss.cs.key() is Some {
                let key = cw.st.ss.cs.key()->0;
                assert(C::State::spec_seal(key, cw.st.ss.cs.n, cw.st.ss.h, kp.public).len()
                    == kp.public.len() + 16);
            }
            assert(enc.2.len() == sub.len());
            assert(c1.buf.subrange(idx as int, (idx + n) as int) =~= enc.2.take(n as int));
            let temp = message.subrange(idx as int, (idx + n) as int);
            let dec = spec_decrypt_and_hash::<C, H>(cr.st.ss, temp, zeros(D::spec_dhlen() + 16));
            assert(dec.2.take(D::spec_dhlen() as int) == kp.public);
            assert(r1.st.keys.rs == Some(kp.public));
        },
        _ => {
            lemma_dh_token_agree::<D, H>(is_initiator, cw.st, cr.st, t, e_known, s_known);
        },
    }
}

/// The tokens of a message written by one party are accepted by its peer
/// reading them from the written bytes, and leave both at the same point
/// of the handshake.
proof fn lemma_tokens_agree<D: DH, C: Cipher, H: crate::crypto::hash::Hash>(
    is_initiator: bool,
    psk: bool,
    cw: WriteCursor,
    cr: ReadCursor,
    tokens: Seq<Token>,
    fresh: Option<KeypairView>,
    message: Seq<u8>,
    e_known: bool,
    s_known: bool,
)
    requires
        aead_opens_sealed::<C::State>(),
        fresh_agrees::<D>(fresh, cr.st.keys),
        keypair_ok::<D>(fresh),
        peers::<D>(cw.st, cr.st),
        cw.idx == cr.idx,
        cw.idx <= cw.buf.len(),
        ok_step(spec_write_tokens::<D, C, H>(is_initiator, psk, cw, tokens, fresh)),
        e_known ==> cr.st.keys.re == opt_public(cw.st.keys.e),
        s_known ==> cr.st.keys.rs is Some,
        writer_keys_known(is_initiator, tokens, e_known, s_known),
        ({
            let w = (spec_write_tokens::<D, C, H>(is_initiator, psk, cw, tokens, fresh)->0).1;
            &&& message.len() >= w.idx
            &&& message.subrange(cw.idx as int, w.idx as int) == w.buf.subrange(
                cw.idx as int,
                w.idx as int,
            )
        }),
    ensures
        ok_step(spec_read_tokens::<D, C, H>(!is_initiator, psk, cr, tokens, message)),
        ({
            let w = (spec_write_tokens::<D, C, H>(is_initiator, psk, cw, tokens, fresh)->0).1;
            let r = (spec_read_tokens::<D, C, H>(!is_initiator, psk, cr, tokens, message)->0).1;
            &&& peers::<D>(w.st, r.st)
            &&& w.idx == r.idx
        }),
    decreases tokens.len(),
{
    if tokens.len() > 0 {
        let t = tokens[0];
        let rest = tokens.skip(1);
        let c1 = (spec_write_token::<D, C, H>(is_initiator, psk, cw, t, fresh)->0).1;
        let r1 = (spec_read_token::<D, C, H>(!is_initiator, psk, cr, t, message)->0).1;
        let w = (spec_write_tokens::<D, C, H>(is_initiator, psk, c1, rest, fresh)->0).1;
        assert(spec_write_tokens::<D, C, H>(is_initiator, psk, cw, tokens, fresh)
            == spec_write_tokens::<D, C, H>(is_initiator, psk, c1, rest, fresh));
        lemma_write_token_prefix::<D, C, H>(is_initiator, psk, cw, t, fresh);
        lemma_write_tokens_prefix::<D, C, H>(is_initiator, psk, c1, rest, fresh);
        lemma_subrange_split(message, w.buf, cw.idx as int, c1.idx as int, w.idx as int);
        lemma_prefix_subrange(w.buf, c1.buf, c1.idx as int, cw.idx as int, c1.idx as int);
        lemma_token_agree::<D, C, H>(is_initiator, psk, cw, cr, t, fresh, message, e_known, s_known);
        assert(spec_read_tokens::<D, C, H>(!is_initiator, psk, cr, tokens, message)
            == spec_read_tokens::<D, C, H>(!is_initiator, psk, r1, rest, message));
        lemma_tokens_agree::<D, C, H>(
            is_initiator,
            psk,
            c1,
            r1,
            rest,
            fresh,
            message,
            e_known || t == Token::E,
            s_known || t == Token::S,
        );
    }
}

/// Equal slices `lo..hi` of `a` and `b` have equal slices `lo..mid` and
/// `mid..hi`.
proof fn lemma_subrange_split(a: Seq<u8>, b: Seq<u8>, lo: int, mid: int, hi: int)
    requires
        0 <= lo <= mid <= hi <= a.len(),
        hi <= b.len(),
        a.subrange(lo, hi) == b.subrange(lo, hi),
    ensures
        a.subrange(lo, mid) == b.subrange(lo, mid),
        a.subrange(mid, hi) == b.subrange(mid, hi),
{
    assert(a.subrange(lo, mid) =~= a.subrange(lo, hi).subrange(0, mid - lo));
    assert(b.subrange(lo, mid) =~= b.subrange(lo, hi).subrange(0, mid - lo));
    assert(a.subrange(mid, hi) =~= a.subrange(lo, hi).subrange(mid - lo, hi - lo));
    assert(b.subrange(mid, hi) =~= b.subrange(lo, hi).subrange(mid - lo, hi - lo));
}

/// Sequences with the same first `k` elements have the same slices below
/// `k`.
proof fn lemma_prefix_subrange(a: Seq<u8>, b: Seq<u8>, k: int, lo: int, hi: int)
    requires
        0 <= lo <= hi <= k <= a.len(),
        k <= b.len(),
        a.take(k) == b.take(k),
    ensures
        a.subrange(lo, hi) == b.subrange(lo, hi),
{
    assert(a.subrange(lo, hi) =~= a.take(k).subrange(lo, hi));
    assert(b.subrange(lo, hi) =~= b.take(k).subrange(lo, hi));
}

/// The bytes of the handshake message written into `buf` with the outcome
/// `outcome`: the first `bytes` (or `bytes_written`) bytes of the buffer.
pub open spec fn written_message(outcome: HandshakeOutcome, buf: Seq<u8>) -> Seq<u8> {
    match outcome {
        HandshakeOutcome::Continue { bytes } => buf.take(bytes as int),
        HandshakeOutcome::Complete { bytes_written, .. } => buf.take(bytes_written as int),
    }
}

/// A handshake message that sends the ephemeral key before any other byte
/// (its first token is `e`, or `psk` followed by `e`) begins with the
/// ephemeral public key: that of the local ephemeral keypair when one is
/// set (so that it does not depend on the random number generator), of the
/// generated keypair `fresh` otherwise.
pub proof fn lemma_message_starts_with_ephemeral<
    P: Pattern,
    R: RoleMarker,
    D: DH,
    C: Cipher,
    H: crate::crypto::hash::Hash,
>(st: HandshakeStateView, payload: Seq<u8>, buf: Seq<u8>, fresh: Option<KeypairView>)
    requires
        aead_opens_sealed::<C::State>(),
        st.wf::<D, H>(),
        keypair_ok::<D>(fresh),
        spec_write_message::<P, R, D, C, H>(st, payload, buf, fresh) matches Some(w) && w.0 is Ok,
        ({
            let toks = P::spec_handshake().messages[st.step as int];
            ||| toks.len() > 0 && toks[0] == Token::E
            ||| toks.len() > 1 && toks[0] == Token::PSK && toks[1] == Token::E
        }),
    ensures
        ({
            let w = spec_write_message::<P, R, D, C, H>(st, payload, buf, fresh)->0;
            let kp = if st.keys.e is Some {
                st.keys.e->0
            } else {
                fresh->0
            };
            written_message(w.0->Ok_0, w.2).take(D::spec_dhlen() as int) == kp.public
        }),
{
    let hs = P::spec_handshake();
    let i = R::spec_is_initiator();
    let psk = hs.has_psk();
    let toks = hs.messages[st.step as int];
    let dhlen = D::spec_dhlen();
    let c0 = WriteCursor { st, idx: 0, buf };
    let cs = if toks[0] == Token::PSK {
        (spec_write_token::<D, C, H>(i, psk, c0, Token::PSK, fresh)->0).1
    } else {
        c0
    };
    let rest = if toks[0] == Token::PSK {
        toks.skip(1)
    } else {
        toks
    };
    assert(spec_write_tokens::<D, C, H>(i, psk, c0, toks, fresh) == spec_write_tokens::<D, C, H>(
        i,
        psk,
        cs,
        rest,
        fresh,
    ));
    lemma_tokens_start_with_ephemeral::<D, C, H>(i, psk, cs, rest, fresh);
    let c = (spec_write_tokens::<D, C, H>(i, psk, cs, rest, fresh)->0).1;
    let w = spec_write_message::<P, R, D, C, H>(st, payload, buf, fresh)->0;
    let st1 = HandshakeStateView { step: st.step + 1, ..c.st };
    let enc = spec_encrypt_and_hash::<C, H>(st1.ss, payload, c.buf.skip(c.idx as int));
    let end = (spec_write_payload::<C, H>(st1, payload, c.buf, c.idx).0)->Ok_0;
    assert(w.2 == c.buf.take(c.idx as int) + enc.2);
    assert(written_message(w.0->Ok_0, w.2) == w.2.take(end as int));
    assert(w.2.take(end as int).take(dhlen as int) =~= c.buf.take(dhlen as int));
}

/// Tokens written from the start of the buffer, the first of which is `e`,
/// begin the buffer with the ephemeral public key.
proof fn lemma_tokens_start_with_ephemeral<D: DH, C: Cipher, H: crate::crypto::hash::Hash>(
    i: bool,
    psk: bool,
    cs: WriteCursor,
    rest: Seq<Token>,
    fresh: Option<KeypairView>,
)
    requires
        aead_opens_sealed::<C::State>(),
        cs.idx == 0,
        cs.st.keys.wf(D::spec_dhlen()),
        keypair_ok::<D>(fresh),
        rest.len() > 0,
        rest[0] == Token::E,
        ok_step(spec_write_tokens::<D, C, H>(i, psk, cs, rest, fresh)),
    ensures
        ({
            let c = (spec_write_tokens::<D, C, H>(i, psk, cs, rest, fresh)->0).1;
            let kp = if cs.st.keys.e is Some {
                cs.st.keys.e->0
            } else {
                fresh->0
            };
            &&& D::spec_dhlen() <= c.idx <= c.buf.len()
            &&& c.buf.take(D::spec_dhlen() as int) == kp.public
        }),
{
    let dhlen = D::spec_dhlen();
    let c1 = (spec_write_token::<D, C, H>(i, psk, cs, Token::E, fresh)->0).1;
    let kp = if cs.st.keys.e is Some {
        cs.st.keys.e->0
    } else {
        fresh->0
    };
    assert(spec_write_tokens::<D, C, H>(i, psk, cs, rest, fresh) == spec_write_tokens::<D, C, H>(
        i,
        psk,
        c1,
        rest.skip(1),
        fresh,
    ));
    assert(c1.buf.take(dhlen as int) =~= kp.public);
    lemma_write_token_prefix::<D, C, H>(i, psk, cs, Token::E, fresh);
    lemma_write_tokens_prefix::<D, C, H>(i, psk, c1, rest.skip(1), fresh);
    let c = (spec_write_tokens::<D, C, H>(i, psk, c1, rest.skip(1), fresh)->0).1;
    assert(c.buf.take(dhlen as int) =~= c.buf.take(c1.idx as int).take(dhlen as int));
}

/// A handshake message written by one party is accepted by its peer reading
/// the written bytes, and leaves both parties at the same point of the
/// handshake, with the same handshake hash and chaining key; the reader gets
/// the payload. The last message completes the handshake on both sides,
/// with the same handshake hash, and with transport states in which each
/// party's sending cipher state is the other's receiving one.
///
/// This holds when the AEAD decrypts what it encrypts, the ephemeral
/// keypair `fresh` that the writer may generate agrees on its DH secrets
/// with the reader's keypairs (as those of the two peers do), every DH
/// token of the message uses a key of the writer that the reader knows by
/// then, and the reader's payload buffer can hold the payload.
pub proof fn lemma_message_agreement<
    P: Pattern,
    RW: RoleMarker,
    RR: RoleMarker,
    D: DH,
    C: Cipher,
    H: crate::crypto::hash::Hash,
>(
    writer: HandshakeStateView,
    reader: HandshakeStateView,
    payload: Seq<u8>,
    buf: Seq<u8>,
    fresh: Option<KeypairView>,
    payload_buf: Seq<u8>,
)
    requires
        aead_opens_sealed::<C::State>(),
        fresh_agrees::<D>(fresh, reader.keys),
        keypair_ok::<D>(fresh),
        RW::spec_is_initiator() != RR::spec_is_initiator(),
        peers::<D>(writer, reader),
        writer.step < P::spec_handshake().messages.len() ==> writer_keys_known(
            RW::spec_is_initiator(),
            P::spec_handshake().messages[writer.step as int],
            writer.e_set,
            reader.keys.rs is Some,
        ),
        payload_buf.len() >= payload.len(),
        spec_write_message::<P, RW, D, C, H>(writer, payload, buf, fresh) matches Some(w) && w.0 is Ok,
    ensures
        ({
            let w = spec_write_message::<P, RW, D, C, H>(writer, payload, buf, fresh)->0;
            let read = spec_read_message::<P, RR, D, C, H>(
                reader,
                written_message(w.0->Ok_0, w.2),
                payload_buf,
            );
            let rd = read->0;
            &&& read is Some
            &&& rd.0 is Ok
            &&& peers::<D>(w.1, rd.1)
            &&& rd.2.take(payload.len() as int) == payload
            &&& (w.0->Ok_0 is Complete) == (rd.0->Ok_0 is Complete)
            &&& w.0->Ok_0 is Complete ==> {
                &&& w.0->Ok_0->transport.local == rd.0->Ok_0->transport.remote
                &&& w.0->Ok_0->transport.remote == rd.0->Ok_0->transport.local
                &&& w.0->Ok_0->handshake_hash == rd.0->Ok_0->handshake_hash
            }
        }),
{
    let hs = P::spec_handshake();
    let i = RW::spec_is_initiator();
    let psk = hs.has_psk();
    let toks = hs.messages[writer.step as int];
    let cw0 = WriteCursor { st: writer, idx: 0, buf };
    let cr0 = ReadCursor { st: reader, idx: 0 };
    let wt = spec_write_tokens::<D, C, H>(i, psk, cw0, toks, fresh)->0;
    let c = wt.1;
    let st1 = HandshakeStateView { step: writer.step + 1, ..c.st };
    let rest_buf = c.buf.skip(c.idx as int);
    let enc = spec_encrypt_and_hash::<C, H>(st1.ss, payload, rest_buf);
    let p = spec_write_payload::<C, H>(st1, payload, c.buf, c.idx);
    let w = spec_write_message::<P, RW, D, C, H>(writer, payload, buf, fresh)->0;
    let n = enc.0->Ok_0;
    let end = p.0->Ok_0;
    let m = written_message(w.0->Ok_0, w.2);
    lemma_write_tokens_prefix::<D, C, H>(i, psk, cw0, toks, fresh);
    assert(w.2 == c.buf.take(c.idx as int) + enc.2);
    assert(end == c.idx + n);
    assert(m == w.2.take(end as int));
    if st1.ss.cs.key() is Some {
        let key = st1.ss.cs.key()->0;
        assert(C::State::spec_seal(key, st1.ss.cs.n, st1.ss.h, payload).len() == payload.len() + 16);
    }
    assert(enc.2.len() == rest_buf.len());
    assert(m.subrange(0, c.idx as int) =~= c.buf.subrange(0, c.idx as int));
    lemma_tokens_agree::<D, C, H>(
        i,
        psk,
        cw0,
        cr0,
        toks,
        fresh,
        m,
        writer.e_set,
        reader.keys.rs is Some,
    );
    assert(m.skip(c.idx as int) =~= enc.2.take(n as int));
    lemma_symmetric_roundtrip::<C, H>(st1.ss, payload, rest_buf, payload_buf);
}

/// Mixing the same pre-message tokens with keys that agree wherever both
/// are set gives the same symmetric state.
proof fn lemma_pre_messages_agree<H: crate::crypto::hash::Hash>(
    ss: SymmetricStateView,
    tokens: Seq<Token>,
    a_s: Option<Seq<u8>>,
    a_ms: MissingKey,
    a_e: Option<Seq<u8>>,
    a_me: MissingKey,
    b_s: Option<Seq<u8>>,
    b_ms: MissingKey,
    b_e: Option<Seq<u8>>,
    b_me: MissingKey,
)
    requires
        a_s is Some && b_s is Some ==> a_s == b_s,
        a_e is Some && b_e is Some ==> a_e == b_e,
        spec_mix_pre_messages::<H>(ss, tokens, a_s, a_ms, a_e, a_me) is Ok,
        spec_mix_pre_messages::<H>(ss, tokens, b_s, b_ms, b_e, b_me) is Ok,
    ensures
        spec_mix_pre_messages::<H>(ss, tokens, a_s, a_ms, a_e, a_me) == spec_mix_pre_messages::<H>(
            ss,
            tokens,
            b_s,
            b_ms,
            b_e,
            b_me,
        ),
        spec_mix_pre_messages::<H>(ss, tokens, a_s, a_ms, a_e, a_me)->Ok_0.cs == ss.cs,
    decreases tokens.len(),
{
    if tokens.len() > 0 {
        let key = if tokens[0] == Token::S {
            a_s
        } else {
            a_e
        };
        lemma_pre_messages_agree::<H>(
            crate::state::symmetric_state::spec_mix_hash::<H>(ss, key->0),
            tokens.skip(1),
            a_s,
            a_ms,
            a_e,
            a_me,
            b_s,
            b_ms,
            b_e,
            b_me,
        );
    }
}

/// Two parties that initialize the same pattern with the same prologue,
/// each knowing the other's keys rightly and with keypairs that agree on
/// their DH secrets, start as peers: with the same
/// handshake hash and chaining key (the pre-message keys mixed in the same
/// order on both sides).
pub proof fn lemma_initialize_peers<
    P: Pattern,
    RA: RoleMarker,
    RB: RoleMarker,
    D: DH,
    C: Cipher,
    H: crate::crypto::hash::Hash,
>(prologue: Seq<u8>, ka: HandshakeKeysView, kb: HandshakeKeysView)
    requires
        RA::spec_is_initiator() != RB::spec_is_initiator(),
        ka.wf(D::spec_dhlen()),
        kb.wf(D::spec_dhlen()),
        keypair_ok::<D>(ka.s),
        keypair_ok::<D>(ka.e),
        keypair_ok::<D>(kb.s),
        keypair_ok::<D>(kb.e),
        keys_agree::<D>(ka, kb),
        knows(ka, kb),
        knows(kb, ka),
        ka.re is None,
        kb.re is None,
        ka.psk == kb.psk,
        spec_initialize::<P, RA, D, C, H>(prologue, ka) is Ok,
        spec_initialize::<P, RB, D, C, H>(prologue, kb) is Ok,
    ensures
        peers::<D>(
            spec_initialize::<P, RA, D, C, H>(prologue, ka)->Ok_0,
            spec_initialize::<P, RB, D, C, H>(prologue, kb)->Ok_0,
        ),
        roles_follow_history(
            P::spec_handshake(),
            spec_initialize::<P, RA, D, C, H>(prologue, ka)->Ok_0,
            spec_initialize::<P, RB, D, C, H>(prologue, kb)->Ok_0,
            RA::spec_is_initiator(),
        ),
{
    let hs = P::spec_handshake();
    let ss0 = crate::state::symmetric_state::spec_mix_hash::<H>(
        crate::state::symmetric_state::spec_initialize_symmetric::<H>(
            vstd::utf8::encode_utf8(
                crate::state::handshake_state::spec_protocol_name::<P, D, C, H>(),
            ),
        ),
        prologue,
    );
    let (ki, kr) = if RA::spec_is_initiator() {
        (ka, kb)
    } else {
        (kb, ka)
    };
    let si = opt_public(ki.s);
    let ei = opt_public(ki.e);
    let sr = opt_public(kr.s);
    let er = opt_public(kr.e);
    lemma_pre_messages_agree::<H>(
        ss0,
        hs.pre_initiator,
        si,
        MissingKey::LocalStatic,
        ei,
        MissingKey::LocalEphemeral,
        kr.rs,
        MissingKey::RemoteStatic,
        kr.re,
        MissingKey::RemoteEphemeral,
    );
    let ss1 = spec_mix_pre_messages::<H>(
        ss0,
        hs.pre_initiator,
        si,
        MissingKey::LocalStatic,
        ei,
        MissingKey::LocalEphemeral,
    )->Ok_0;
    lemma_pre_messages_agree::<H>(
        ss1,
        hs.pre_responder,
        ki.rs,
        MissingKey::RemoteStatic,
        ki.re,
        MissingKey::RemoteEphemeral,
        sr,
        MissingKey::LocalStatic,
        er,
        MissingKey::LocalEphemeral,
    );
    lemma_pre_messages_have_keys::<H>(
        ss0,
        hs.pre_initiator,
        kr.rs,
        MissingKey::RemoteStatic,
        kr.re,
        MissingKey::RemoteEphemeral,
    );
    lemma_pre_messages_have_keys::<H>(
        ss1,
        hs.pre_responder,
        ki.rs,
        MissingKey::RemoteStatic,
        ki.re,
        MissingKey::RemoteEphemeral,
    );
}

/// Mixing pre-message tokens that hold `s` succeeds only with a static key.
proof fn lemma_pre_messages_have_keys<H: crate::crypto::hash::Hash>(
    ss: SymmetricStateView,
    tokens: Seq<Token>,
    s: Option<Seq<u8>>,
    ms: MissingKey,
    e: Option<Seq<u8>>,
    me: MissingKey,
)
    requires
        spec_mix_pre_messages::<H>(ss, tokens, s, ms, e, me) is Ok,
    ensures
        has_token(tokens, Token::S) ==> s is Some,
    decreases tokens.len(),
{
    if tokens.len() > 0 && tokens[0] != Token::S {
        lemma_pre_messages_have_keys::<H>(
            crate::state::symmetric_state::spec_mix_hash::<H>(ss, e->0),
            tokens.skip(1),
            s,
            ms,
            e,
            me,
        );
    }
}

/// The initiator's state `a` and the responder's state `b` know of each
/// other at least what the history of the pattern `hs` says before their
/// next message.
pub open spec fn follows_history(hs: PatternSpec, a: HandshakeStateView, b: HandshakeStateView) -> bool {
    let h = history(hs, a.step);
    &&& h.0 ==> a.e_set
    &&& h.1 ==> b.keys.rs is Some
    &&& h.2 ==> b.e_set
    &&& h.3 ==> a.keys.rs is Some
}

/// The states of the writer `w` and the reader `r` follow the history of
/// `hs`, the writer being the initiator when `writer_is_initiator`.
pub open spec fn roles_follow_history(
    hs: PatternSpec,
    w: HandshakeStateView,
    r: HandshakeStateView,
    writer_is_initiator: bool,
) -> bool {
    if writer_is_initiator {
        follows_history(hs, w, r)
    } else {
        follows_history(hs, r, w)
    }
}

/// Knowing more keeps the writer's keys known.
proof fn lemma_writer_keys_known_mono(
    is_initiator: bool,
    tokens: Seq<Token>,
    e1: bool,
    s1: bool,
    e2: bool,
    s2: bool,
)
    requires
        writer_keys_known(is_initiator, tokens, e1, s1),
        e1 ==> e2,
        s1 ==> s2,
    ensures
        writer_keys_known(is_initiator, tokens, e2, s2),
    decreases tokens.len(),
{
    if tokens.len() > 0 {
        let t = tokens[0];
        lemma_writer_keys_known_mono(
            is_initiator,
            tokens.skip(1),
            e1 || t == Token::E,
            s1 || t == Token::S,
            e2 || t == Token::E,
            s2 || t == Token::S,
        );
    }
}

/// The messages from index `j` on use only known keys, so does each of
/// them.
proof fn lemma_keys_flow_at(hs: PatternSpec, j: nat, k: nat)
    requires
        keys_flow_from(hs, j),
        j <= k < hs.messages.len(),
    ensures
        message_keys_known(hs, k),
    decreases k - j,
{
    if j < k {
        lemma_keys_flow_at(hs, j + 1, k);
    }
}

/// Writing tokens without error sends the writer's ephemeral key when
/// they hold `e`, and leaves what it knows of the reader as it is.
proof fn lemma_write_tokens_effects<D: DH, C: Cipher, H: crate::crypto::hash::Hash>(
    is_initiator: bool,
    psk: bool,
    c: WriteCursor,
    tokens: Seq<Token>,
    fresh: Option<KeypairView>,
)
    requires
        ok_step(spec_write_tokens::<D, C, H>(is_initiator, psk, c, tokens, fresh)),
    ensures
        ({
            let w = (spec_write_tokens::<D, C, H>(is_initiator, psk, c, tokens, fresh)->0).1;
            &&& w.st.e_set == (c.st.e_set || has_token(tokens, Token::E))
            &&& w.st.keys.rs == c.st.keys.rs
        }),
    decreases tokens.len(),
{
    if tokens.len() > 0 {
        let c1 = (spec_write_token::<D, C, H>(is_initiator, psk, c, tokens[0], fresh)->0).1;
        lemma_write_tokens_effects::<D, C, H>(is_initiator, psk, c1, tokens.skip(1), fresh);
    }
}

/// Reading tokens without error keeps whether the reader's ephemeral key
/// was sent, and gives it the writer's static key when they hold `s`.
proof fn lemma_read_tokens_effects<D: DH, C: Cipher, H: crate::crypto::hash::Hash>(
    is_initiator: bool,
    psk: bool,
    c: ReadCursor,
    tokens: Seq<Token>,
    message: Seq<u8>,
)
    requires
        ok_step(spec_read_tokens::<D, C, H>(is_initiator, psk, c, tokens, message)),
    ensures
        ({
            let r = (spec_read_tokens::<D, C, H>(is_initiator, psk, c, tokens, message)->0).1;
            &&& r.st.e_set == c.st.e_set
            &&& (c.st.keys.rs is Some || has_token(tokens, Token::S)) ==> r.st.keys.rs is Some
        }),
    decreases tokens.len(),
{
    if tokens.len() > 0 {
        let c1 = (spec_read_token::<D, C, H>(is_initiator, psk, c, tokens[0], message)->0).1;
        lemma_read_tokens_effects::<D, C, H>(is_initiator, psk, c1, tokens.skip(1), message);
    }
}

/// A handshake runs as the pattern says: when the party whose turn it is
/// writes the next message, its peer accepts it and gets the payload, both
/// reach the same handshake hash and chaining key, and they go on as peers
/// that follow the pattern, the reader's turn coming next; the last
/// message leaves both with the same handshake hash and paired transport
/// states. Together with [`lemma_initialize_peers`], this covers every
/// message of a handshake between two parties initialized for the same
/// pattern.
///
/// This holds when the AEAD decrypts what it encrypts, the ephemeral
/// keypair `fresh` that the writer may generate agrees on its DH secrets
/// with the reader's keypairs (as those of the two peers do), and the
/// reader's payload buffer can hold the payload.
pub proof fn lemma_handshake_step<
    P: Pattern,
    RW: RoleMarker,
    RR: RoleMarker,
    D: DH,
    C: Cipher,
    H: crate::crypto::hash::Hash,
>(
    writer: HandshakeStateView,
    reader: HandshakeStateView,
    payload: Seq<u8>,
    buf: Seq<u8>,
    fresh: Option<KeypairView>,
    payload_buf: Seq<u8>,
)
    requires
        aead_opens_sealed::<C::State>(),
        fresh_agrees::<D>(fresh, reader.keys),
        keypair_ok::<D>(fresh),
        RW::spec_is_initiator() != RR::spec_is_initiator(),
        RW::spec_is_initiator() == sent_by_initiator(writer.step as int),
        peers::<D>(writer, reader),
        roles_follow_history(P::spec_handshake(), writer, reader, RW::spec_is_initiator()),
        payload_buf.len() >= payload.len(),
        spec_write_message::<P, RW, D, C, H>(writer, payload, buf, fresh) matches Some(w) && w.0 is Ok,
    ensures
        ({
            let w = spec_write_message::<P, RW, D, C, H>(writer, payload, buf, fresh)->0;
            let read = spec_read_message::<P, RR, D, C, H>(
                reader,
                written_message(w.0->Ok_0, w.2),
                payload_buf,
            );
            let rd = read->0;
            &&& read is Some
            &&& rd.0 is Ok
            &&& peers::<D>(rd.1, w.1)
            &&& rd.2.take(payload.len() as int) == payload
            &&& (w.0->Ok_0 is Complete) == (rd.0->Ok_0 is Complete)
            &&& w.0->Ok_0 is Complete ==> {
                &&& w.0->Ok_0->transport.local == rd.0->Ok_0->transport.remote
                &&& w.0->Ok_0->transport.remote == rd.0->Ok_0->transport.local
                &&& w.0->Ok_0->handshake_hash == rd.0->Ok_0->handshake_hash
            }
            &&& w.0->Ok_0 is Continue ==> {
                &&& RR::spec_is_initiator() == sent_by_initiator(rd.1.step as int)
                &&& roles_follow_history(P::spec_handshake(), rd.1, w.1, RR::spec_is_initiator())
            }
        }),
{
    let hs = P::spec_handshake();
    let i = RW::spec_is_initiator();
    let k = writer.step;
    let h = history(hs, k);
    P::lemma_keys_flow();
    lemma_keys_flow_at(hs, 0, k);
    if i {
        lemma_writer_keys_known_mono(i, hs.messages[k as int], h.0, h.1, writer.e_set, reader.keys.rs is Some);
    } else {
        lemma_writer_keys_known_mono(i, hs.messages[k as int], h.2, h.3, writer.e_set, reader.keys.rs is Some);
    }
    lemma_message_agreement::<P, RW, RR, D, C, H>(writer, reader, payload, buf, fresh, payload_buf);
    let psk = hs.has_psk();
    let toks = hs.messages[k as int];
    let w = spec_write_message::<P, RW, D, C, H>(writer, payload, buf, fresh)->0;
    let m = written_message(w.0->Ok_0, w.2);
    let wt = spec_write_tokens::<D, C, H>(i, psk, WriteCursor { st: writer, idx: 0, buf }, toks, fresh);
    let rt = spec_read_tokens::<D, C, H>(!i, psk, ReadCursor { st: reader, idx: 0 }, toks, m);
    lemma_write_tokens_effects::<D, C, H>(i, psk, WriteCursor { st: writer, idx: 0, buf }, toks, fresh);
    lemma_read_tokens_effects::<D, C, H>(!i, psk, ReadCursor { st: reader, idx: 0 }, toks, m);
    assert(history(hs, k + 1) == if i {
        (h.0 || has_token(toks, Token::E), h.1 || has_token(toks, Token::S), h.2, h.3)
    } else {
        (h.0, h.1, h.2 || has_token(toks, Token::E), h.3 || has_token(toks, Token::S))
    });
}

/// Two parties initialized for the same pattern with the same prologue, as
/// in [`lemma_initialize_peers`], go through the first message as
/// [`lemma_handshake_step`] says: the responder accepts what the initiator
/// writes and gets the payload, both keep the same handshake hash, and they
/// go on as peers, the responder's turn coming next (each further message
/// is then one more step of [`lemma_handshake_step`]).
pub proof fn lemma_first_message<
    P: Pattern,
    RI: RoleMarker,
    RR: RoleMarker,
    D: DH,
    C: Cipher,
    H: crate::crypto::hash::Hash,
>(
    prologue: Seq<u8>,
    ki: HandshakeKeysView,
    kr: HandshakeKeysView,
    payload: Seq<u8>,
    buf: Seq<u8>,
    fresh: Option<KeypairView>,
    payload_buf: Seq<u8>,
)
    requires
        aead_opens_sealed::<C::State>(),
        RI::spec_is_initiator(),
        !RR::spec_is_initiator(),
        ki.wf(D::spec_dhlen()),
        kr.wf(D::spec_dhlen()),
        keys_agree::<D>(ki, kr),
        knows(ki, kr),
        knows(kr, ki),
        ki.re is None,
        kr.re is None,
        ki.psk == kr.psk,
        spec_initialize::<P, RI, D, C, H>(prologue, ki) is Ok,
        spec_initialize::<P, RR, D, C, H>(prologue, kr) is Ok,
        keypair_ok::<D>(fresh),
        fresh_agrees::<D>(fresh, kr),
        payload_buf.len() >= payload.len(),
        spec_write_message::<P, RI, D, C, H>(
            spec_initialize::<P, RI, D, C, H>(prologue, ki)->Ok_0,
            payload,
            buf,
            fresh,
        ) matches Some(w) && w.0 is Ok,
    ensures
        ({
            let init = spec_initialize::<P, RI, D, C, H>(prologue, ki)->Ok_0;
            let resp = spec_initialize::<P, RR, D, C, H>(prologue, kr)->Ok_0;
            let w = spec_write_message::<P, RI, D, C, H>(init, payload, buf, fresh)->0;
            let read = spec_read_message::<P, RR, D, C, H>(
                resp,
                written_message(w.0->Ok_0, w.2),
                payload_buf,
            );
            let rd = read->0;
            &&& read is Some
            &&& rd.0 is Ok
            &&& peers::<D>(rd.1, w.1)
            &&& rd.2.take(payload.len() as int) == payload
            &&& (w.0->Ok_0 is Complete) == (rd.0->Ok_0 is Complete)
            &&& w.0->Ok_0 is Complete ==> {
                &&& w.0->Ok_0->transport.local == rd.0->Ok_0->transport.remote
                &&& w.0->Ok_0->transport.remote == rd.0->Ok_0->transport.local
                &&& w.0->Ok_0->handshake_hash == rd.0->Ok_0->handshake_hash
            }
            &&& w.0->Ok_0 is Continue ==> roles_follow_history(
                P::spec_handshake(),
                rd.1,
                w.1,
                false,
            )
        }),
{
    lemma_initialize_peers::<P, RI, RR, D, C, H>(prologue, ki, kr);
    let init = spec_initialize::<P, RI, D, C, H>(prologue, ki)->Ok_0;
    let resp = spec_initialize::<P, RR, D, C, H>(prologue, kr)->Ok_0;
    assert(init.step == 0 && resp.keys == kr);
    lemma_handshake_step::<P, RI, RR, D, C, H>(init, resp, payload, buf, fresh, payload_buf);
}

} // verus!
