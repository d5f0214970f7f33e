use agave_bls_cert_verify::cert_verify::Error as BlsCertVerifyError;
use agave_votor_messages::consensus_message::CertificateType as MessageType;
use agave_votor_messages::fraction::Fraction as StakeFraction;
use sigverify::bls_cert_sigverify::{
    check_answer, check_cert, select_certs, verify_cert, verify_certs, CertPayload,
    CertVerifyError, CheckedCert, SigVerifyCertStats,
};
use sigverify::certificate::{
    required_fraction, too_far_in_future, Block, CertificateType, Fraction,
};
use sigverify::seen_certs::SeenCerts;

fn block(slot: u64, id: u8) -> Block {
    Block { slot, block_id: [id; 32] }
}

fn all_types(slot: u64) -> Vec<CertificateType> {
    vec![
        CertificateType::Finalize(slot),
        CertificateType::FinalizeFast(block(slot, 1)),
        CertificateType::Notarize(block(slot, 1)),
        CertificateType::NotarizeFallback(block(slot, 1)),
        CertificateType::Skip(slot),
        CertificateType::Genesis(block(slot, 1)),
    ]
}

fn payload(cert: u32, cert_type: CertificateType, sender: u8) -> CertPayload<u32> {
    CertPayload { cert, cert_type, sender_identity_pubkey: [sender; 32] }
}

fn checked(
    result: Result<u32, CertVerifyError>,
    cert_type: CertificateType,
    sender: u8,
) -> CheckedCert<u32> {
    CheckedCert { result, cert_type, sender_identity_pubkey: [sender; 32] }
}

#[test]
fn types_know_their_slot_and_each_other() {
    let types = all_types(7);
    for (i, left) in types.iter().enumerate() {
        assert_eq!(left.slot(), 7);
        for (j, right) in types.iter().enumerate() {
            assert_eq!(left.same(right), i == j);
        }
    }
    assert!(!CertificateType::Notarize(block(7, 1)).same(&CertificateType::Notarize(block(7, 2))));
    assert!(!CertificateType::Notarize(block(7, 1)).same(&CertificateType::Notarize(block(8, 1))));
    assert!(!CertificateType::Skip(7).same(&CertificateType::Skip(8)));
}

#[test]
fn required_parts_are_those_of_the_messages() {
    let percent: Vec<u64> =
        all_types(7).iter().map(|cert_type| required_fraction(cert_type).numerator).collect();
    assert_eq!(percent, vec![60, 80, 60, 60, 60, 82]);
    let id = [1; 32].into();
    let messages = [
        MessageType::Finalize(7),
        MessageType::FinalizeFast(7, id),
        MessageType::Notarize(7, id),
        MessageType::NotarizeFallback(7, id),
        MessageType::Skip(7),
        MessageType::Genesis(7, id),
    ];
    for (message, percent) in messages.iter().zip(percent) {
        assert_eq!(message.limits_and_vote_types().0, StakeFraction::from_percentage(percent));
    }
    assert_eq!(
        required_fraction(&CertificateType::Skip(1)),
        Fraction { numerator: 60, denominator: 100 }
    );
}

#[test]
fn the_window_ends_at_its_last_slot() {
    assert!(!too_far_in_future(110, 10, 100));
    assert!(too_far_in_future(111, 10, 100));
    assert!(!too_far_in_future(0, 10, 100));
    assert!(!too_far_in_future(u64::MAX, u64::MAX - 1, 100));
    assert!(!too_far_in_future(u64::MAX, 1, u64::MAX));
    assert!(too_far_in_future(u64::MAX, 1, u64::MAX - 2));
}

#[test]
fn the_set_holds_what_was_put_in() {
    let mut seen = SeenCerts::new();
    for cert_type in all_types(7).into_iter().chain(all_types(8)) {
        assert!(!seen.contains(&cert_type));
        assert!(seen.insert(cert_type));
        assert!(!seen.insert(cert_type));
        assert!(seen.contains(&cert_type));
    }
    assert!(!seen.contains(&CertificateType::Notarize(block(7, 2))));
    let skip = CertificateType::Skip(7);
    assert!(seen.remove(&skip));
    assert!(!seen.contains(&skip));
    assert!(!seen.remove(&skip));
    assert!(seen.contains(&CertificateType::Skip(8)));
    assert!(seen.contains(&CertificateType::Finalize(7)));
    assert!(seen.insert(skip));
}

#[test]
fn certificates_within_the_window_are_verified() {
    let cert_type = CertificateType::Skip(110);
    let result = verify_cert(5, &cert_type, 10, 100, |cert: u32| Ok(cert + 1));
    assert_eq!(result.unwrap(), 6);
    let result = verify_cert(5, &cert_type, 10, 100, |_: u32| {
        Err::<u32, _>(BlsCertVerifyError::MissingRank)
    });
    assert!(matches!(
        result,
        Err(CertVerifyError::CertVerifyFailed(BlsCertVerifyError::MissingRank))
    ));
}

#[test]
fn certificates_beyond_the_window_are_not_verified() {
    let cert_type = CertificateType::Notarize(block(111, 3));
    let result = verify_cert(5, &cert_type, 10, 100, |_: u32| -> Result<u32, BlsCertVerifyError> {
        panic!("not to be verified")
    });
    assert!(matches!(
        result,
        Err(CertVerifyError::TooFarInFuture { cert_slot: 111, root_slot: 10 })
    ));
}

#[test]
fn answers_are_passed_through() {
    assert_eq!(check_answer::<u32>(Ok(3)).unwrap(), 3);
    assert!(matches!(
        check_answer::<u32>(Err(BlsCertVerifyError::WrongEncoding)),
        Err(CertVerifyError::CertVerifyFailed(BlsCertVerifyError::WrongEncoding))
    ));
    assert!(matches!(
        CertVerifyError::from(BlsCertVerifyError::MissingRankMap),
        CertVerifyError::CertVerifyFailed(BlsCertVerifyError::MissingRankMap)
    ));
}

#[test]
fn no_certificates_count_nothing() {
    let mut seen = SeenCerts::new();
    let mut stats = SigVerifyCertStats::default();
    assert!(select_certs::<u32>(vec![], &mut seen, &mut stats).is_empty());
    assert_eq!(stats, SigVerifyCertStats::default());
    let verdicts = verify_certs::<u32>(vec![], &mut seen, &mut stats);
    assert!(verdicts.certs.is_empty());
    assert!(verdicts.bans.is_empty());
    assert_eq!(stats, SigVerifyCertStats::default());
}

#[test]
fn one_certificate_of_each_new_type_is_selected() {
    let mut seen = SeenCerts::new();
    seen.insert(CertificateType::Skip(1));
    let mut stats = SigVerifyCertStats::default();
    let certs = vec![
        payload(1, CertificateType::Skip(1), 1),
        payload(2, CertificateType::Skip(2), 2),
        payload(3, CertificateType::Finalize(2), 3),
        payload(4, CertificateType::Skip(2), 4),
        payload(5, CertificateType::Skip(1), 5),
        payload(6, CertificateType::Notarize(block(2, 1)), 6),
        payload(7, CertificateType::Notarize(block(2, 2)), 7),
    ];
    let selected = select_certs(certs, &mut seen, &mut stats);
    let selected: Vec<u32> = selected.iter().map(|payload| payload.cert).collect();
    assert_eq!(selected, vec![2, 3, 6, 7]);
    assert_eq!(stats.duplicate_certs_skipped_before_verify, 3);
    assert_eq!(stats.certs_to_sig_verify, 4);
    assert!(seen.contains(&CertificateType::Skip(2)));
    assert!(seen.contains(&CertificateType::Notarize(block(2, 2))));
}

#[test]
fn verified_certificates_are_passed_on_and_the_others_are_not() {
    let mut seen = SeenCerts::new();
    for slot in 1..5 {
        seen.insert(CertificateType::Skip(slot));
    }
    let mut stats = SigVerifyCertStats::default();
    let too_far = CertVerifyError::TooFarInFuture { cert_slot: 3, root_slot: 0 };
    let failed = CertVerifyError::CertVerifyFailed(BlsCertVerifyError::WrongEncoding);
    let verdicts = verify_certs(
        vec![
            checked(Ok(10), CertificateType::Skip(1), 1),
            checked(Err(failed), CertificateType::Skip(2), 2),
            checked(Err(too_far), CertificateType::Skip(3), 3),
            checked(Ok(40), CertificateType::Skip(4), 4),
        ],
        &mut seen,
        &mut stats,
    );
    assert_eq!(verdicts.certs, vec![10, 40]);
    assert_eq!(verdicts.bans, vec![([2; 32], BlsCertVerifyError::WrongEncoding)]);
    assert_eq!(stats.sig_verified_certs, 0);
    assert_eq!(stats.certs_to_sig_verify, 0);
    assert_eq!(stats.certificate_verification_failed, 1);
    assert_eq!(stats.too_far_in_future, 1);
    assert_eq!(stats.already_banned, 0);
    assert!(seen.contains(&CertificateType::Skip(1)));
    assert!(!seen.contains(&CertificateType::Skip(2)));
    assert!(!seen.contains(&CertificateType::Skip(3)));
    assert!(seen.contains(&CertificateType::Skip(4)));
}

#[test]
fn failed_certificates_are_retried_and_verified_ones_are_not() {
    let mut seen = SeenCerts::new();
    let mut stats = SigVerifyCertStats::default();
    let certs = |n: u32| {
        vec![
            payload(n, CertificateType::Skip(1), 1),
            payload(n + 1, CertificateType::Skip(2), 2),
        ]
    };
    let selected = select_certs(certs(1), &mut seen, &mut stats);
    assert_eq!(selected.len(), 2);
    let failed = CertVerifyError::CertVerifyFailed(BlsCertVerifyError::MissingRank);
    verify_certs(
        vec![
            checked(Err(failed), selected[0].cert_type, 1),
            checked(Ok(2), selected[1].cert_type, 2),
        ],
        &mut seen,
        &mut stats,
    );
    let selected = select_certs(certs(11), &mut seen, &mut stats);
    assert_eq!(selected.len(), 1);
    assert_eq!(selected[0].cert, 11);
    assert_eq!(stats.duplicate_certs_skipped_before_verify, 1);
}

// One call: certificates of the slots in `invalid` do not verify.
fn call(
    certs: Vec<CertPayload<u32>>,
    invalid: &[u64],
    seen: &mut SeenCerts,
) -> (Vec<u32>, SigVerifyCertStats) {
    let mut stats = SigVerifyCertStats::default();
    let checked = select_certs(certs, seen, &mut stats)
        .into_iter()
        .map(|payload| {
            let slot = payload.cert_type.slot();
            check_cert(payload, 0, 10, |cert| {
                if invalid.contains(&slot) {
                    Err(BlsCertVerifyError::MissingRank)
                } else {
                    Ok(cert)
                }
            })
        })
        .collect();
    let verdicts = verify_certs(checked, seen, &mut stats);
    stats.record_verified(verdicts.certs.len());
    (verdicts.certs, stats)
}

#[test]
fn the_same_certificates_again() {
    let certs = || {
        vec![
            payload(1, CertificateType::Skip(1), 1),
            payload(2, CertificateType::Skip(2), 2),
            payload(3, CertificateType::Skip(99), 3),
            payload(4, CertificateType::Skip(4), 4),
            payload(5, CertificateType::Skip(1), 5),
        ]
    };
    let mut seen = SeenCerts::new();
    seen.insert(CertificateType::Skip(4));
    let (passed, stats) = call(certs(), &[2], &mut seen);
    assert_eq!(passed, vec![1]);
    assert_eq!(stats.duplicate_certs_skipped_before_verify, 2);
    assert_eq!(stats.certs_to_sig_verify, 3);
    assert_eq!(stats.sig_verified_certs, 1);
    assert_eq!(stats.certificate_verification_failed, 1);
    assert_eq!(stats.too_far_in_future, 1);
    let (passed, stats) = call(certs(), &[2], &mut seen);
    assert!(passed.is_empty());
    assert_eq!(stats.duplicate_certs_skipped_before_verify, 3);
    assert_eq!(stats.certs_to_sig_verify, 2);
    assert!(seen.contains(&CertificateType::Skip(1)));
    assert!(seen.contains(&CertificateType::Skip(4)));
    assert!(!seen.contains(&CertificateType::Skip(2)));
    assert!(!seen.contains(&CertificateType::Skip(99)));
    let (passed, _) = call(certs(), &[], &mut seen);
    assert_eq!(passed, vec![2]);
}

#[test]
fn a_checked_certificate_keeps_its_type_and_sender() {
    let cert_type = CertificateType::Notarize(block(5, 2));
    let checked = check_cert(payload(7, cert_type, 8), 0, 10, |cert| Ok(cert * 10));
    assert_eq!(checked.result.unwrap(), 70);
    assert_eq!(checked.cert_type, cert_type);
    assert_eq!(checked.sender_identity_pubkey, [8; 32]);
    let far = check_cert(
        payload(7, CertificateType::Skip(11), 8),
        0,
        10,
        |_: u32| -> Result<u32, BlsCertVerifyError> { panic!("not to be verified") },
    );
    assert!(matches!(
        far.result,
        Err(CertVerifyError::TooFarInFuture { cert_slot: 11, root_slot: 0 })
    ));
}

#[test]
fn verified_certificates_are_counted_by_the_caller() {
    let mut stats = SigVerifyCertStats::default();
    stats.record_verified(3);
    assert_eq!(stats.sig_verified_certs, 3);
    assert_eq!(stats.certs_to_sig_verify, 0);
}

#[test]
fn only_repeated_bans_count() {
    let mut stats = SigVerifyCertStats::default();
    stats.record_ban(false);
    assert_eq!(stats.already_banned, 0);
    stats.record_ban(true);
    assert_eq!(stats.already_banned, 1);
}
