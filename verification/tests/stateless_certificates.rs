use agave_bls_cert_verify::cert_verify::Error as BlsCertVerifyError;
use sigverify::certificate::{Block, CertificateType, Fraction};
use sigverify::stateless_cert_sigverify::{
    check_answer, conclude_certs, verify_cert, verify_certs, verify_stake, CertPayload,
    CertVerifyError, SigVerifyCertStats,
};

fn block(slot: u64) -> Block {
    Block { slot, block_id: [9; 32] }
}

fn payload(cert: u64, slot: u64, sender: u8) -> CertPayload<u64> {
    CertPayload { cert, cert_type: CertificateType::Skip(slot), remote_pubkey: [sender; 32] }
}

fn is_poor(result: &Result<(), CertVerifyError>) -> bool {
    matches!(result, Err(CertVerifyError::NotEnoughStake { .. }))
}

#[test]
fn the_threshold_is_exact() {
    for (cert_type, enough) in [
        (CertificateType::Finalize(1), 60),
        (CertificateType::FinalizeFast(block(1)), 80),
        (CertificateType::Notarize(block(1)), 60),
        (CertificateType::NotarizeFallback(block(1)), 60),
        (CertificateType::Skip(1), 60),
        (CertificateType::Genesis(block(1)), 82),
    ] {
        assert!(verify_stake(&cert_type, enough, 100).is_ok());
        assert!(verify_stake(&cert_type, 100, 100).is_ok());
        assert!(is_poor(&verify_stake(&cert_type, enough - 1, 100)));
        assert!(is_poor(&verify_stake(&cert_type, 0, 100)));
    }
}

#[test]
fn the_threshold_is_not_rounded() {
    let total = 100_000_000_000_000_000;
    let cert_type = CertificateType::Notarize(block(1));
    assert!(verify_stake(&cert_type, 60_000_000_000_000_000, total).is_ok());
    assert!(is_poor(&verify_stake(&cert_type, 59_999_999_999_999_999, total)));
    assert!(verify_stake(&cert_type, u64::MAX, u64::MAX).is_ok());
    assert!(is_poor(&verify_stake(&cert_type, u64::MAX / 2, u64::MAX)));
}

#[test]
fn too_little_stake_is_reported_in_full() {
    match verify_stake(&CertificateType::FinalizeFast(block(1)), 7, 10) {
        Err(CertVerifyError::NotEnoughStake {
            aggregate_stake,
            cert_fraction,
            required_fraction,
        }) => {
            assert_eq!(aggregate_stake, 7);
            assert_eq!(cert_fraction, Fraction { numerator: 7, denominator: 10 });
            assert_eq!(required_fraction, Fraction { numerator: 80, denominator: 100 });
        }
        _ => panic!("enough stake"),
    }
}

#[test]
fn signatures_are_checked_before_stake() {
    let cert_type = CertificateType::Skip(5);
    let result = verify_cert(&0u64, &cert_type, 0, 10, &|_: &u64| {
        Err(BlsCertVerifyError::MissingRank)
    });
    assert!(matches!(
        result,
        Err(CertVerifyError::CertVerifyFailed(BlsCertVerifyError::MissingRank))
    ));
    assert!(verify_cert(&60u64, &cert_type, 0, 10, &|cert: &u64| Ok((*cert, 100))).is_ok());
    assert!(is_poor(&verify_cert(&59u64, &cert_type, 0, 10, &|cert: &u64| Ok((*cert, 100)))));
}

#[test]
fn far_certificates_are_not_handed_to_the_bank() {
    let result = verify_cert(
        &0u64,
        &CertificateType::Skip(11),
        0,
        10,
        &|_: &u64| -> Result<(u64, u64), BlsCertVerifyError> { panic!("not to be verified") },
    );
    assert!(matches!(
        result,
        Err(CertVerifyError::TooFarInFuture { cert_slot: 11, root_slot: 0 })
    ));
}

#[test]
fn answers_decide_over_certificates() {
    let cert_type = CertificateType::Skip(5);
    assert!(check_answer(&cert_type, Ok((60, 100))).is_ok());
    assert!(is_poor(&check_answer(&cert_type, Ok((59, 100)))));
    assert!(matches!(
        check_answer(&cert_type, Err(BlsCertVerifyError::WrongEncoding)),
        Err(CertVerifyError::CertVerifyFailed(BlsCertVerifyError::WrongEncoding))
    ));
    assert!(matches!(
        CertVerifyError::from(BlsCertVerifyError::MissingRankMap),
        CertVerifyError::CertVerifyFailed(BlsCertVerifyError::MissingRankMap)
    ));
}

#[test]
fn senders_of_all_invalid_certificates_are_banned() {
    let mut stats = SigVerifyCertStats::default();
    let certs = vec![
        payload(60, 1, 1),
        payload(59, 2, 2),
        payload(0, 3, 3),
        payload(60, 100, 4),
        payload(70, 5, 5),
    ];
    let verify = |cert: &u64| {
        if *cert == 0 {
            Err(BlsCertVerifyError::MissingRank)
        } else {
            Ok((*cert, 100))
        }
    };
    let verdicts = verify_certs(certs, 0, 10, &verify, &mut stats);
    assert_eq!(verdicts.messages, vec![60, 70]);
    assert_eq!(
        verdicts.newly_verified,
        vec![CertificateType::Skip(1), CertificateType::Skip(5)]
    );
    assert_eq!(verdicts.bans, vec![[2; 32], [3; 32], [4; 32]]);
    assert_eq!(stats.certs_to_sig_verify, 0);
    assert_eq!(stats.sig_verified_certs, 0);
    assert_eq!(stats.stake_verification_failed, 1);
    assert_eq!(stats.signature_verification_failed, 1);
    assert_eq!(stats.too_far_in_future, 1);
    assert_eq!(stats.already_banned, 0);
}

#[test]
fn the_same_type_is_verified_again() {
    let mut stats = SigVerifyCertStats::default();
    let certs = vec![payload(60, 1, 1), payload(61, 1, 2)];
    let verdicts = verify_certs(certs, 0, 10, &|cert: &u64| Ok((*cert, 100)), &mut stats);
    assert_eq!(verdicts.messages, vec![60, 61]);
    assert!(verdicts.bans.is_empty());
}

#[test]
fn given_outcomes_are_followed() {
    let mut stats = SigVerifyCertStats::default();
    let certs = vec![payload(1, 1, 1), payload(2, 2, 2)];
    let too_far = CertVerifyError::TooFarInFuture { cert_slot: 1, root_slot: 0 };
    let verdicts = conclude_certs(certs, &vec![Err(too_far), Ok(())], &mut stats);
    assert_eq!(verdicts.messages, vec![2]);
    assert_eq!(verdicts.newly_verified, vec![CertificateType::Skip(2)]);
    assert_eq!(verdicts.bans, vec![[1; 32]]);
}

#[test]
fn the_caller_counts_what_is_to_be_verified_and_what_was() {
    let mut stats = SigVerifyCertStats::default();
    stats.record_to_verify(5);
    stats.record_verified(2);
    assert_eq!(stats.certs_to_sig_verify, 5);
    assert_eq!(stats.sig_verified_certs, 2);
}

#[test]
fn repeated_bans_are_counted_here_too() {
    let mut stats = SigVerifyCertStats::default();
    stats.record_ban(true);
    stats.record_ban(false);
    assert_eq!(stats.already_banned, 1);
}
