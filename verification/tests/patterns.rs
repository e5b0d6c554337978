use nivalis::patterns::roles::{Initiator, PatternRequirements, Responder};
use nivalis::patterns::{
    Pattern, Token, IK, IKpsk2, IN, IX, K, KK, N, NK, NN, NNpsk0, Npsk0, X, XK, XX, XXpsk3,
};

#[test]
fn one_way_patterns() {
    assert!(N::handshake().is_oneway());
    assert!(K::handshake().is_oneway());
    assert!(X::handshake().is_oneway());
    assert!(Npsk0::handshake().is_oneway());
    assert!(!NN::handshake().is_oneway());
    assert!(!XX::handshake().is_oneway());
}

#[test]
fn xx_messages() {
    let hs = XX::handshake();
    let m = hs.messages();
    assert_eq!(m.len(), 3);
    assert_eq!(m[0].tokens, &[Token::E]);
    assert_eq!(m[1].tokens, &[Token::E, Token::EE, Token::S, Token::ES]);
    assert_eq!(m[2].tokens, &[Token::S, Token::SE]);
    assert!(hs.initiator_pre_messages().is_empty());
    assert!(hs.responder_pre_messages().is_empty());
}

#[test]
fn ik_pre_messages_and_requirements() {
    let hs = IK::handshake();
    assert_eq!(hs.responder_pre_messages(), &[Token::S]);
    assert!(hs.peer_static_is_premessage(true));
    assert!(!hs.peer_static_is_premessage(false));
    assert!(hs.local_static_required(true));
    assert!(hs.local_static_required(false));
    assert!(!hs.local_ephemeral_required(true));
    assert!(!hs.peer_ephemeral_is_premessage(true));
}

#[test]
fn psk_detection() {
    assert!(NNpsk0::handshake().has_psk());
    assert!(XXpsk3::handshake().has_psk());
    assert!(IKpsk2::handshake().has_psk());
    assert!(!NN::handshake().has_psk());
    assert!(!IK::handshake().has_psk());
}

#[test]
fn local_static_requirements() {
    assert!(!NN::handshake().local_static_required(true));
    assert!(!NN::handshake().local_static_required(false));
    assert!(!NK::handshake().local_static_required(true));
    assert!(NK::handshake().local_static_required(false));
    assert!(XK::handshake().local_static_required(true));
    assert!(IN::handshake().local_static_required(true));
    assert!(!IN::handshake().local_static_required(false));
    assert!(KK::handshake().local_static_required(true));
}

#[test]
fn requirements_per_role() {
    assert!(<IK as PatternRequirements<Initiator>>::local_static_required());
    assert!(<IK as PatternRequirements<Initiator>>::remote_static_required());
    assert!(!<IK as PatternRequirements<Responder>>::remote_static_required());
    assert!(<IK as PatternRequirements<Responder>>::local_static_required());
    assert!(!<NN as PatternRequirements<Initiator>>::local_static_required());
    assert!(<NNpsk0 as PatternRequirements<Responder>>::psk_required());
    assert!(!<XX as PatternRequirements<Responder>>::psk_required());
    assert!(!<IX as PatternRequirements<Initiator>>::local_ephemeral_required());
    assert!(!<IX as PatternRequirements<Initiator>>::remote_ephemeral_required());
    assert!(<K as PatternRequirements<Responder>>::remote_static_required());
}

#[test]
fn pattern_names() {
    assert_eq!(XX::name(), "XX");
    assert_eq!(IKpsk2::name(), "IKpsk2");
    assert_eq!(Npsk0::name(), "Npsk0");
}
