//! Signature verification of certificates that keeps no record of those it has seen.

use crate::bytes::Pubkey;
use crate::certificate::{
    has_enough_stake, is_too_far, meets_limit, required_fraction, threshold_percent,
    too_far_in_future, CertificateType, Fraction,
};
use crate::counting::{
    count_to, counts_are_numbers_of_positions, lemma_count_bound, lemma_count_step, positions,
};
use agave_bls_cert_verify::cert_verify::Error as BlsCertVerifyError;
use vstd::prelude::*;

verus! {

/// A certificate that was received.
#[derive(Debug, Clone)]
pub struct CertPayload<C> {
    /// The certificate.
    pub cert: C,
    /// What it certifies.
    pub cert_type: CertificateType,
    /// Who sent it.
    pub remote_pubkey: Pubkey,
}

/// Why a certificate is not accepted.
#[derive(Debug)]
pub enum CertVerifyError {
    /// The certificate does not verify.
    CertVerifyFailed(BlsCertVerifyError),
    /// Too little stake stands behind the certificate.
    NotEnoughStake {
        /// The stake that stands behind the certificate.
        aggregate_stake: u64,
        /// Its part of the whole stake.
        cert_fraction: Fraction,
        /// The part that is needed.
        required_fraction: Fraction,
    },
    /// The certificate is about a slot too far ahead of the root.
    TooFarInFuture {
        /// The slot of the certificate.
        cert_slot: u64,
        /// The slot of the root.
        root_slot: u64,
    },
}

impl From<BlsCertVerifyError> for CertVerifyError {
    fn from(err: BlsCertVerifyError) -> (result: Self) {
        CertVerifyError::CertVerifyFailed(err)
    }
}

impl vstd::std_specs::convert::FromSpecImpl<BlsCertVerifyError> for CertVerifyError {
    open spec fn obeys_from_spec() -> bool {
        true
    }

    open spec fn from_spec(err: BlsCertVerifyError) -> CertVerifyError {
        CertVerifyError::CertVerifyFailed(err)
    }
}

/// What was counted while certificates were verified.
#[derive(Debug, Clone, Copy, PartialEq, Eq)]
pub struct SigVerifyCertStats {
    /// Certificates that were to be verified.
    pub certs_to_sig_verify: u64,
    /// Certificates that verified.
    pub sig_verified_certs: u64,
    /// Certificates with too little stake behind them.
    pub stake_verification_failed: u64,
    /// Certificates that did not verify.
    pub signature_verification_failed: u64,
    /// Certificates about slots too far ahead of the root.
    pub too_far_in_future: u64,
    /// Senders that were to be banned and already were.
    pub already_banned: u64,
}

impl SigVerifyCertStats {
    /// All counters are zero.
    pub open spec fn zero() -> SigVerifyCertStats {
        SigVerifyCertStats {
            certs_to_sig_verify: 0,
            sig_verified_certs: 0,
            stake_verification_failed: 0,
            signature_verification_failed: 0,
            too_far_in_future: 0,
            already_banned: 0,
        }
    }

    /// Counts certificates that are to be verified.
    pub fn record_to_verify(&mut self, certs: usize)
        requires
            old(self).certs_to_sig_verify + certs <= u64::MAX,
        ensures
            *final(self) == (SigVerifyCertStats {
                certs_to_sig_verify: (old(self).certs_to_sig_verify + certs) as u64,
                ..*old(self)
            }),
    {
        self.certs_to_sig_verify += certs as u64;
    }

    /// Counts certificates that verified.
    pub fn record_verified(&mut self, certs: usize)
        requires
            old(self).sig_verified_certs + certs <= u64::MAX,
        ensures
            *final(self) == (SigVerifyCertStats {
                sig_verified_certs: (old(self).sig_verified_certs + certs) as u64,
                ..*old(self)
            }),
    {
        self.sig_verified_certs += certs as u64;
    }

    /// Counts a ban, if the sender already was banned.
    pub fn record_ban(&mut self, already_banned: bool)
        requires
            old(self).already_banned < u64::MAX,
        ensures
            *final(self) == (SigVerifyCertStats {
                already_banned: (old(self).already_banned + if already_banned {
                    1int
                } else {
                    0int
                }) as u64,
                ..*old(self)
            }),
    {
        if already_banned {
            self.already_banned += 1;
        }
    }
}

impl Default for SigVerifyCertStats {
    fn default() -> (stats: Self)
        ensures
            stats == SigVerifyCertStats::zero(),
    {
        SigVerifyCertStats {
            certs_to_sig_verify: 0,
            sig_verified_certs: 0,
            stake_verification_failed: 0,
            signature_verification_failed: 0,
            too_far_in_future: 0,
            already_banned: 0,
        }
    }
}

/// The outcome of the stake check.
pub open spec fn stake_outcome(
    cert_type: CertificateType,
    aggregate_stake: u64,
    total_stake: u64,
) -> Result<(), CertVerifyError> {
    if has_enough_stake(cert_type, aggregate_stake, total_stake) {
        Ok(())
    } else {
        Err(
            CertVerifyError::NotEnoughStake {
                aggregate_stake,
                cert_fraction: Fraction { numerator: aggregate_stake, denominator: total_stake },
                required_fraction: Fraction {
                    numerator: threshold_percent(cert_type),
                    denominator: 100,
                },
            },
        )
    }
}

/// Checks that enough of the stake stands behind a certificate.
pub fn verify_stake(cert_type: &CertificateType, aggregate_stake: u64, total_stake: u64) -> (result:
    Result<(), CertVerifyError>)
    requires
        total_stake != 0,
    ensures
        result == stake_outcome(*cert_type, aggregate_stake, total_stake),
{
    if meets_limit(cert_type, aggregate_stake, total_stake) {
        Ok(())
    } else {
        Err(
            CertVerifyError::NotEnoughStake {
                aggregate_stake,
                cert_fraction: Fraction { numerator: aggregate_stake, denominator: total_stake },
                required_fraction: required_fraction(cert_type),
            },
        )
    }
}

/// What becomes of a certificate that was verified: `answer` holds the stake behind it and the
/// whole stake.
pub open spec fn bank_outcome(
    cert_type: CertificateType,
    answer: Result<(u64, u64), BlsCertVerifyError>,
) -> Result<(), CertVerifyError> {
    match answer {
        Ok((aggregate_stake, total_stake)) => stake_outcome(
            cert_type,
            aggregate_stake,
            total_stake,
        ),
        Err(err) => Err(CertVerifyError::CertVerifyFailed(err)),
    }
}

/// Decides what becomes of a certificate that was verified: `answer` holds the stake behind it and
/// the whole stake.
pub fn check_answer(
    cert_type: &CertificateType,
    answer: Result<(u64, u64), BlsCertVerifyError>,
) -> (result: Result<(), CertVerifyError>)
    requires
        answer matches Ok((_, total_stake)) ==> total_stake != 0,
    ensures
        result == bank_outcome(*cert_type, answer),
{
    match answer {
        Ok((aggregate_stake, total_stake)) => verify_stake(cert_type, aggregate_stake, total_stake),
        Err(err) => Err(CertVerifyError::from(err)),
    }
}

/// The certificate can be handed to `verify`, which never finds the whole stake to be zero.
pub open spec fn can_verify<C, F: Fn(&C) -> Result<(u64, u64), BlsCertVerifyError>>(
    verify: F,
    cert: &C,
) -> bool {
    &&& call_requires(verify, (cert,))
    &&& forall|answer: Result<(u64, u64), BlsCertVerifyError>| #[trigger]
        call_ensures(verify, (cert,), answer) ==> (answer matches Ok((_, total_stake))
            ==> total_stake != 0)
}

/// What can become of a certificate.
pub open spec fn cert_checked<C, F: Fn(&C) -> Result<(u64, u64), BlsCertVerifyError>>(
    verify: F,
    cert: &C,
    cert_type: CertificateType,
    root_slot: u64,
    window: u64,
    outcome: Result<(), CertVerifyError>,
) -> bool {
    if is_too_far(cert_type.of_slot(), root_slot, window) {
        outcome == Err::<(), _>(
            CertVerifyError::TooFarInFuture { cert_slot: cert_type.of_slot(), root_slot },
        )
    } else {
        exists|answer: Result<(u64, u64), BlsCertVerifyError>| #[trigger]
            call_ensures(verify, (cert,), answer) && outcome == bank_outcome(cert_type, answer)
    }
}

/// Verifies a certificate with `verify`, unless it is about a slot that is more than `window`
/// slots ahead of the root, and checks that enough of the stake stands behind it.
pub fn verify_cert<C, F: Fn(&C) -> Result<(u64, u64), BlsCertVerifyError>>(
    cert: &C,
    cert_type: &CertificateType,
    root_slot: u64,
    window: u64,
    verify: &F,
) -> (result: Result<(), CertVerifyError>)
    requires
        !is_too_far(cert_type.of_slot(), root_slot, window) ==> can_verify(*verify, cert),
    ensures
        cert_checked(*verify, cert, *cert_type, root_slot, window, result),
{
    let cert_slot: u64 = cert_type.slot();
    if too_far_in_future(cert_slot, root_slot, window) {
        return Err(CertVerifyError::TooFarInFuture { cert_slot, root_slot });
    }
    let answer = verify(cert);
    check_answer(cert_type, answer)
}

/// Of the first `n` certificates, those that are accepted, in order.
pub open spec fn accepted<C>(
    certs: Seq<CertPayload<C>>,
    outcomes: Seq<Result<(), CertVerifyError>>,
    n: int,
) -> Seq<CertPayload<C>>
    decreases n,
{
    if n <= 0 {
        Seq::empty()
    } else if outcomes[n - 1] is Ok {
        accepted(certs, outcomes, n - 1).push(certs[n - 1])
    } else {
        accepted(certs, outcomes, n - 1)
    }
}

/// The senders of those of the first `n` certificates that are not accepted, in order.
pub open spec fn banned<C>(
    certs: Seq<CertPayload<C>>,
    outcomes: Seq<Result<(), CertVerifyError>>,
    n: int,
) -> Seq<Pubkey>
    decreases n,
{
    if n <= 0 {
        Seq::empty()
    } else if outcomes[n - 1] is Err {
        banned(certs, outcomes, n - 1).push(certs[n - 1].remote_pubkey)
    } else {
        banned(certs, outcomes, n - 1)
    }
}

/// The counters after `n` certificates were verified: those count that are not accepted.
pub open spec fn verification_counted(
    stats: SigVerifyCertStats,
    outcomes: Seq<Result<(), CertVerifyError>>,
    n: nat,
) -> SigVerifyCertStats {
    SigVerifyCertStats {
        stake_verification_failed: (stats.stake_verification_failed + count_to(
            n,
            |i: int| outcomes[i] matches Err(CertVerifyError::NotEnoughStake { .. }),
        )) as u64,
        signature_verification_failed: (stats.signature_verification_failed + count_to(
            n,
            |i: int| outcomes[i] matches Err(CertVerifyError::CertVerifyFailed(_)),
        )) as u64,
        too_far_in_future: (stats.too_far_in_future + count_to(
            n,
            |i: int| outcomes[i] matches Err(CertVerifyError::TooFarInFuture { .. }),
        )) as u64,
        ..stats
    }
}

/// `n` more certificates can be counted without overflow.
pub open spec fn can_count(stats: SigVerifyCertStats, n: nat) -> bool {
    &&& stats.stake_verification_failed + n <= u64::MAX
    &&& stats.signature_verification_failed + n <= u64::MAX
    &&& stats.too_far_in_future + n <= u64::MAX
}

/// The counters after one certificate more.
spec fn outcome_counted(stats: SigVerifyCertStats, outcome: Result<(), CertVerifyError>) ->
    SigVerifyCertStats {
    match outcome {
        Ok(()) => stats,
        Err(CertVerifyError::NotEnoughStake { .. }) => SigVerifyCertStats {
            stake_verification_failed: (stats.stake_verification_failed + 1) as u64,
            ..stats
        },
        Err(CertVerifyError::CertVerifyFailed(_)) => SigVerifyCertStats {
            signature_verification_failed: (stats.signature_verification_failed + 1) as u64,
            ..stats
        },
        Err(CertVerifyError::TooFarInFuture { .. }) => SigVerifyCertStats {
            too_far_in_future: (stats.too_far_in_future + 1) as u64,
            ..stats
        },
    }
}

proof fn lemma_counted_step(
    stats: SigVerifyCertStats,
    outcomes: Seq<Result<(), CertVerifyError>>,
    n: nat,
)
    requires
        n < outcomes.len(),
        can_count(stats, outcomes.len()),
    ensures
        verification_counted(stats, outcomes, n + 1) == outcome_counted(
            verification_counted(stats, outcomes, n),
            outcomes[n as int],
        ),
        can_count(verification_counted(stats, outcomes, n), 1),
{
    lemma_count_step(
        n,
        |i: int| outcomes[i] matches Err(CertVerifyError::NotEnoughStake { .. }),
    );
    lemma_count_step(n, |i: int| outcomes[i] matches Err(CertVerifyError::CertVerifyFailed(_)));
    lemma_count_step(
        n,
        |i: int| outcomes[i] matches Err(CertVerifyError::TooFarInFuture { .. }),
    );
}

/// What is done with certificates that were verified.
pub struct CertVerdicts<C> {
    /// The certificates that are passed on.
    pub messages: Vec<C>,
    /// What they certify.
    pub newly_verified: Vec<CertificateType>,
    /// The senders that are banned.
    pub bans: Vec<Pubkey>,
}

impl<C> CertVerdicts<C> {
    /// The accepted certificates are passed on together with their types, and the senders of all
    /// others are banned.
    pub open spec fn follow(
        self,
        certs: Seq<CertPayload<C>>,
        outcomes: Seq<Result<(), CertVerifyError>>,
        n: int,
    ) -> bool {
        &&& self.messages@ == accepted(certs, outcomes, n).map_values(
            |payload: CertPayload<C>| payload.cert,
        )
        &&& self.newly_verified@ == accepted(certs, outcomes, n).map_values(
            |payload: CertPayload<C>| payload.cert_type,
        )
        &&& self.bans@ == banned(certs, outcomes, n)
    }
}

/// Decides what is done with certificates, given what became of each.
pub fn conclude_certs<C>(
    certs: Vec<CertPayload<C>>,
    outcomes: &Vec<Result<(), CertVerifyError>>,
    stats: &mut SigVerifyCertStats,
) -> (verdicts: CertVerdicts<C>)
    requires
        outcomes@.len() == certs@.len(),
        can_count(*old(stats), certs@.len()),
    ensures
        verdicts.follow(certs@, outcomes@, certs@.len() as int),
        *final(stats) == verification_counted(*old(stats), outcomes@, certs@.len()),
{
    let ghost all = certs@;
    let ghost stats0 = *stats;
    let mut verdicts = CertVerdicts {
        messages: Vec::new(),
        newly_verified: Vec::new(),
        bans: Vec::new(),
    };
    let num_certs: usize = outcomes.len();
    let mut index: usize = 0;
    assert(verdicts.follow(all, outcomes@, 0)) by {
        let none = accepted(all, outcomes@, 0);
        assert(verdicts.messages@ =~= none.map_values(|payload: CertPayload<C>| payload.cert));
        assert(verdicts.newly_verified@ =~= none.map_values(
            |payload: CertPayload<C>| payload.cert_type,
        ));
    }
    for payload in it: certs
        invariant
            it.seq() == all,
            num_certs == all.len(),
            index == it.index(),
            outcomes@.len() == all.len(),
            can_count(stats0, all.len()),
            verdicts.follow(all, outcomes@, index as int),
            *stats == verification_counted(stats0, outcomes@, index as nat),
    {
        proof {
            lemma_counted_step(stats0, outcomes@, index as nat);
        }
        let ghost before = accepted(all, outcomes@, index as int);
        let ghost after = accepted(all, outcomes@, index + 1);
        match &outcomes[index] {
            Ok(()) => {
                verdicts.newly_verified.push(payload.cert_type);
                verdicts.messages.push(payload.cert);
                assert(after == before.push(all[index as int]));
            },
            Err(err) => {
                verdicts.bans.push(payload.remote_pubkey);
                match err {
                    CertVerifyError::NotEnoughStake { .. } => {
                        stats.stake_verification_failed += 1;
                    },
                    CertVerifyError::CertVerifyFailed(_) => {
                        stats.signature_verification_failed += 1;
                    },
                    CertVerifyError::TooFarInFuture { .. } => {
                        stats.too_far_in_future += 1;
                    },
                }
            },
        }
        assert(verdicts.messages@ =~= after.map_values(|payload: CertPayload<C>| payload.cert));
        assert(verdicts.newly_verified@ =~= after.map_values(
            |payload: CertPayload<C>| payload.cert_type,
        ));
        index += 1;
    }
    verdicts
}

/// What can become of each of the certificates.
pub open spec fn certs_checked<C, F: Fn(&C) -> Result<(u64, u64), BlsCertVerifyError>>(
    verify: F,
    certs: Seq<CertPayload<C>>,
    root_slot: u64,
    window: u64,
    outcomes: Seq<Result<(), CertVerifyError>>,
) -> bool {
    &&& outcomes.len() == certs.len()
    &&& forall|i: int|
        0 <= i < certs.len() ==> cert_checked(
            verify,
            &certs[i].cert,
            certs[i].cert_type,
            root_slot,
            window,
            #[trigger] outcomes[i],
        )
}

/// Verifies certificates one after the other, and decides what is done with each. Those that are
/// accepted are passed on together with their types, so that the caller can keep a record of
/// them. The senders of all others are banned.
pub fn verify_certs<C, F: Fn(&C) -> Result<(u64, u64), BlsCertVerifyError>>(
    certs: Vec<CertPayload<C>>,
    root_slot: u64,
    window: u64,
    verify: &F,
    stats: &mut SigVerifyCertStats,
) -> (verdicts: CertVerdicts<C>)
    requires
        forall|i: int|
            0 <= i < certs@.len() && !is_too_far(
                (#[trigger] certs@[i]).cert_type.of_slot(),
                root_slot,
                window,
            ) ==> can_verify(*verify, &certs@[i].cert),
        can_count(*old(stats), certs@.len()),
    ensures
        exists|outcomes: Seq<Result<(), CertVerifyError>>|
            {
                &&& #[trigger] certs_checked(*verify, certs@, root_slot, window, outcomes)
                &&& verdicts.follow(certs@, outcomes, certs@.len() as int)
                &&& *final(stats) == verification_counted(*old(stats), outcomes, certs@.len())
            },
{
    let mut outcomes: Vec<Result<(), CertVerifyError>> = Vec::new();
    for index in 0..certs.len()
        invariant
            outcomes@.len() == index,
            forall|i: int|
                0 <= i < certs@.len() && !is_too_far(
                    (#[trigger] certs@[i]).cert_type.of_slot(),
                    root_slot,
                    window,
                ) ==> can_verify(*verify, &certs@[i].cert),
            forall|i: int|
                0 <= i < index ==> cert_checked(
                    *verify,
                    &certs@[i].cert,
                    certs@[i].cert_type,
                    root_slot,
                    window,
                    #[trigger] outcomes@[i],
                ),
    {
        let payload = &certs[index];
        let outcome = verify_cert(&payload.cert, &payload.cert_type, root_slot, window, verify);
        outcomes.push(outcome);
    }
    assert(certs_checked(*verify, certs@, root_slot, window, outcomes@));
    conclude_certs(certs, &outcomes, stats)
}

/// Every certificate is either passed on, or its sender is banned. Each counts under exactly one
/// outcome.
pub proof fn every_cert_counts_once<C>(
    certs: Seq<CertPayload<C>>,
    outcomes: Seq<Result<(), CertVerifyError>>,
    n: nat,
)
    requires
        n <= certs.len(),
        outcomes.len() == certs.len(),
    ensures
        ({
            let verified = count_to(n, |i: int| outcomes[i] is Ok);
            let poor = count_to(
                n,
                |i: int| outcomes[i] matches Err(CertVerifyError::NotEnoughStake { .. }),
            );
            let failed = count_to(
                n,
                |i: int| outcomes[i] matches Err(CertVerifyError::CertVerifyFailed(_)),
            );
            let too_far = count_to(
                n,
                |i: int| outcomes[i] matches Err(CertVerifyError::TooFarInFuture { .. }),
            );
            &&& verified + poor + failed + too_far == n
            &&& accepted(certs, outcomes, n as int).len() == verified
            &&& banned(certs, outcomes, n as int).len() == poor + failed + too_far
        }),
    decreases n,
{
    if n > 0 {
        let m = (n - 1) as nat;
        every_cert_counts_once(certs, outcomes, m);
        lemma_count_step(m, |i: int| outcomes[i] is Ok);
        lemma_count_step(
            m,
            |i: int| outcomes[i] matches Err(CertVerifyError::NotEnoughStake { .. }),
        );
        lemma_count_step(
            m,
            |i: int| outcomes[i] matches Err(CertVerifyError::CertVerifyFailed(_)),
        );
        lemma_count_step(
            m,
            |i: int| outcomes[i] matches Err(CertVerifyError::TooFarInFuture { .. }),
        );
    }
}

/// The types that are reported are those of the certificates that are passed on, in the same
/// order.
pub proof fn reported_types_are_those_passed_on<C>(
    verdicts: CertVerdicts<C>,
    certs: Seq<CertPayload<C>>,
    outcomes: Seq<Result<(), CertVerifyError>>,
    n: int,
    k: int,
)
    requires
        0 <= n <= certs.len(),
        verdicts.follow(certs, outcomes, n),
        0 <= k < verdicts.messages@.len(),
    ensures
        verdicts.newly_verified@.len() == verdicts.messages@.len(),
        exists|i: int|
            {
                &&& 0 <= i < n
                &&& outcomes[i] is Ok
                &&& verdicts.messages@[k] == (#[trigger] certs[i]).cert
                &&& verdicts.newly_verified@[k] == certs[i].cert_type
            },
{
    lemma_accepted_source(certs, outcomes, n, k);
}

proof fn lemma_accepted_source<C>(
    certs: Seq<CertPayload<C>>,
    outcomes: Seq<Result<(), CertVerifyError>>,
    n: int,
    k: int,
)
    requires
        0 <= n <= certs.len(),
        0 <= k < accepted(certs, outcomes, n).len(),
    ensures
        exists|i: int|
            0 <= i < n && outcomes[i] is Ok && accepted(certs, outcomes, n)[k]
                == #[trigger] certs[i],
    decreases n,
{
    let before = accepted(certs, outcomes, n - 1);
    if k < before.len() {
        lemma_accepted_source(certs, outcomes, n - 1, k);
        let i = choose|i: int|
            0 <= i < n - 1 && outcomes[i] is Ok && before[k] == #[trigger] certs[i];
        assert(accepted(certs, outcomes, n)[k] == certs[i]);
    } else {
        assert(accepted(certs, outcomes, n)[k] == certs[n - 1]);
    }
}

/// A certificate with too little stake behind it is never accepted, whatever `verify` finds.
pub proof fn accepted_certs_have_enough_stake<
    C,
    F: Fn(&C) -> Result<(u64, u64), BlsCertVerifyError>,
>(
    verify: F,
    cert: &C,
    cert_type: CertificateType,
    root_slot: u64,
    window: u64,
)
    requires
        cert_checked(verify, cert, cert_type, root_slot, window, Ok(())),
    ensures
        !is_too_far(cert_type.of_slot(), root_slot, window),
        exists|aggregate_stake: u64, total_stake: u64|
            {
                &&& #[trigger] call_ensures(
                    verify,
                    (cert,),
                    Ok::<(u64, u64), BlsCertVerifyError>((aggregate_stake, total_stake)),
                )
                &&& has_enough_stake(cert_type, aggregate_stake, total_stake)
            },
{
    let answer = choose|answer: Result<(u64, u64), BlsCertVerifyError>| #[trigger]
        call_ensures(verify, (cert,), answer) && Ok::<(), CertVerifyError>(()) == bank_outcome(
            cert_type,
            answer,
        );
    let (aggregate_stake, total_stake) = answer->Ok_0;
    assert(call_ensures(
        verify,
        (cert,),
        Ok::<(u64, u64), BlsCertVerifyError>((aggregate_stake, total_stake)),
    ));
}

/// The certificates that are passed on are those that are accepted, unchanged and in order, each
/// with its own type. The keys that are banned are those of the senders of all others, in order.
pub proof fn verdicts_follow_the_outcomes<C>(
    verdicts: CertVerdicts<C>,
    certs: Seq<CertPayload<C>>,
    outcomes: Seq<Result<(), CertVerifyError>>,
    n: nat,
)
    requires
        n <= certs.len(),
        verdicts.follow(certs, outcomes, n as int),
    ensures
        ({
            let at = positions(n, |i: int| outcomes[i] is Ok);
            let rejected_at = positions(n, |i: int| outcomes[i] is Err);
            &&& verdicts.messages@.len() == at.len()
            &&& verdicts.newly_verified@.len() == at.len()
            &&& forall|k: int|
                0 <= k < at.len() ==> #[trigger] verdicts.messages@[k] == certs[at[k]].cert
            &&& forall|k: int|
                0 <= k < at.len() ==> #[trigger] verdicts.newly_verified@[k]
                    == certs[at[k]].cert_type
            &&& verdicts.bans@.len() == rejected_at.len()
            &&& forall|k: int|
                0 <= k < rejected_at.len() ==> #[trigger] verdicts.bans@[k]
                    == certs[rejected_at[k]].remote_pubkey
        }),
{
    lemma_accepted_and_banned(certs, outcomes, n);
}

proof fn lemma_accepted_and_banned<C>(
    certs: Seq<CertPayload<C>>,
    outcomes: Seq<Result<(), CertVerifyError>>,
    n: nat,
)
    ensures
        ({
            let passed = accepted(certs, outcomes, n as int);
            let at = positions(n, |i: int| outcomes[i] is Ok);
            let senders = banned(certs, outcomes, n as int);
            let rejected_at = positions(n, |i: int| outcomes[i] is Err);
            &&& passed.len() == at.len()
            &&& forall|k: int| 0 <= k < passed.len() ==> #[trigger] passed[k] == certs[at[k]]
            &&& senders.len() == rejected_at.len()
            &&& forall|k: int|
                0 <= k < senders.len() ==> #[trigger] senders[k]
                    == certs[rejected_at[k]].remote_pubkey
        }),
    decreases n,
{
    if n > 0 {
        lemma_accepted_and_banned(certs, outcomes, (n - 1) as nat);
    }
}

/// Certificates with too little stake, those that did not verify and those from too far in the
/// future are counted apart. No other counter changes.
pub proof fn counters_of_certs_are_kept_apart(
    stats: SigVerifyCertStats,
    outcomes: Seq<Result<(), CertVerifyError>>,
    n: nat,
)
    requires
        n <= outcomes.len(),
        can_count(stats, outcomes.len()),
    ensures
        ({
            let after = verification_counted(stats, outcomes, n);
            &&& after.stake_verification_failed == stats.stake_verification_failed + positions(
                n,
                |i: int| outcomes[i] matches Err(CertVerifyError::NotEnoughStake { .. }),
            ).len()
            &&& after.signature_verification_failed == stats.signature_verification_failed
                + positions(
                n,
                |i: int| outcomes[i] matches Err(CertVerifyError::CertVerifyFailed(_)),
            ).len()
            &&& after.too_far_in_future == stats.too_far_in_future + positions(
                n,
                |i: int| outcomes[i] matches Err(CertVerifyError::TooFarInFuture { .. }),
            ).len()
            &&& after.certs_to_sig_verify == stats.certs_to_sig_verify
            &&& after.sig_verified_certs == stats.sig_verified_certs
            &&& after.already_banned == stats.already_banned
        }),
        ({
            let zero = SigVerifyCertStats::zero();
            &&& zero.certs_to_sig_verify == 0
            &&& zero.sig_verified_certs == 0
            &&& zero.stake_verification_failed == 0
            &&& zero.signature_verification_failed == 0
            &&& zero.too_far_in_future == 0
            &&& zero.already_banned == 0
        }),
{
    let poor = |i: int| outcomes[i] matches Err(CertVerifyError::NotEnoughStake { .. });
    let failed = |i: int| outcomes[i] matches Err(CertVerifyError::CertVerifyFailed(_));
    let too_far = |i: int| outcomes[i] matches Err(CertVerifyError::TooFarInFuture { .. });
    counts_are_numbers_of_positions(n, poor);
    counts_are_numbers_of_positions(n, failed);
    counts_are_numbers_of_positions(n, too_far);
    lemma_count_bound(n, poor);
    lemma_count_bound(n, failed);
    lemma_count_bound(n, too_far);
}

/// A certificate that verified is accepted if and only if enough stake stands behind it; otherwise
/// the error tells how much does, what part of the whole that is, and what part is needed. One that
/// did not verify is not accepted, and the reason is kept.
pub proof fn answers_decide(
    cert_type: CertificateType,
    answer: Result<(u64, u64), BlsCertVerifyError>,
    err: BlsCertVerifyError,
)
    ensures
        answer matches Ok((stake, total)) ==> {
            let outcome = bank_outcome(cert_type, answer);
            &&& outcome is Ok <==> has_enough_stake(cert_type, stake, total)
            &&& outcome is Err ==> (outcome matches Err(
                CertVerifyError::NotEnoughStake {
                    aggregate_stake,
                    cert_fraction,
                    required_fraction,
                },
            ) && {
                &&& aggregate_stake == stake
                &&& cert_fraction.numerator == stake
                &&& cert_fraction.denominator == total
                &&& required_fraction.numerator == if cert_type is FinalizeFast {
                    80
                } else if cert_type is Genesis {
                    82
                } else {
                    60int
                }
                &&& required_fraction.denominator == 100
            })
        },
        answer matches Err(err) ==> bank_outcome(cert_type, answer) == Err::<(), _>(
            CertVerifyError::CertVerifyFailed(err),
        ),
        <CertVerifyError as vstd::std_specs::convert::FromSpec<BlsCertVerifyError>>::from_spec(err)
            == CertVerifyError::CertVerifyFailed(err),
{
}

/// A certificate from too far in the future is turned away with its own slot and that of the root,
/// whatever `verify` would have found. For any other the answer of `verify` decides: it is said not
/// to verify, or to have too little stake behind it, only if that is the answer.
pub proof fn window_is_checked_first<C, F: Fn(&C) -> Result<(u64, u64), BlsCertVerifyError>>(
    verify: F,
    cert: &C,
    cert_type: CertificateType,
    root_slot: u64,
    window: u64,
    outcome: Result<(), CertVerifyError>,
)
    requires
        cert_checked(verify, cert, cert_type, root_slot, window, outcome),
    ensures
        (outcome matches Err(CertVerifyError::TooFarInFuture { .. })) <==> cert_type.of_slot()
            > root_slot + window,
        outcome matches Err(CertVerifyError::TooFarInFuture { cert_slot, root_slot: root }) ==> {
            &&& cert_slot == cert_type.of_slot()
            &&& root == root_slot
        },
        outcome matches Err(CertVerifyError::CertVerifyFailed(err)) ==> call_ensures(
            verify,
            (cert,),
            Err::<(u64, u64), BlsCertVerifyError>(err),
        ),
        outcome matches Err(
            CertVerifyError::NotEnoughStake { aggregate_stake, cert_fraction, .. },
        ) ==> {
            &&& call_ensures(
                verify,
                (cert,),
                Ok::<(u64, u64), BlsCertVerifyError>((aggregate_stake, cert_fraction.denominator)),
            )
            &&& !has_enough_stake(cert_type, aggregate_stake, cert_fraction.denominator)
        },
{
    if cert_type.of_slot() <= root_slot + window {
        let answer = choose|answer: Result<(u64, u64), BlsCertVerifyError>| #[trigger]
            call_ensures(verify, (cert,), answer) && outcome == bank_outcome(cert_type, answer);
        assert(call_ensures(verify, (cert,), answer));
    }
}

} // verus!
