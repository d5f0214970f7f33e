//! Signature verification of certificates, with a set of those that were seen before.

use crate::bytes::Pubkey;
use crate::certificate::{is_too_far, too_far_in_future, CertificateType};
use crate::counting::{
    count_to, counts_are_numbers_of_positions, lemma_count_step, positions,
    positions_have_the_property,
};
use crate::seen_certs::SeenCerts;
use agave_bls_cert_verify::cert_verify::Error as BlsCertVerifyError;
use vstd::prelude::*;

verus! {

/// Why a certificate does not verify.
#[verifier::external_type_specification]
#[verifier::external_body]
pub struct ExBlsCertVerifyError(BlsCertVerifyError);

/// A certificate that was received.
pub struct CertPayload<C> {
    /// The certificate.
    pub cert: C,
    /// What it certifies.
    pub cert_type: CertificateType,
    /// Who sent it.
    pub sender_identity_pubkey: Pubkey,
}

/// Why a certificate is not accepted.
#[derive(Debug)]
pub enum CertVerifyError {
    /// The certificate does not verify.
    CertVerifyFailed(BlsCertVerifyError),
    /// The certificate is about a slot too far ahead of the root.
    TooFarInFuture {
        /// The slot of the certificate.
        cert_slot: u64,
        /// The slot of the root.
        root_slot: u64,
    },
}

impl From<BlsCertVerifyError> for CertVerifyError {
    fn from(err: BlsCertVerifyError) -> (result: Self) {
        CertVerifyError::CertVerifyFailed(err)
    }
}

impl vstd::std_specs::convert::FromSpecImpl<BlsCertVerifyError> for CertVerifyError {
    open spec fn obeys_from_spec() -> bool {
        true
    }

    open spec fn from_spec(err: BlsCertVerifyError) -> CertVerifyError {
        CertVerifyError::CertVerifyFailed(err)
    }
}

/// What was counted while certificates were verified.
#[derive(Debug, Clone, Copy, PartialEq, Eq)]
pub struct SigVerifyCertStats {
    /// Certificates that were dropped because one of their type was seen before.
    pub duplicate_certs_skipped_before_verify: u64,
    /// Certificates that were to be verified.
    pub certs_to_sig_verify: u64,
    /// Certificates that verified.
    pub sig_verified_certs: u64,
    /// Certificates that did not verify.
    pub certificate_verification_failed: u64,
    /// Certificates about slots too far ahead of the root.
    pub too_far_in_future: u64,
    /// Senders that were to be banned and already were.
    pub already_banned: u64,
}

impl SigVerifyCertStats {
    /// All counters are zero.
    pub open spec fn zero() -> SigVerifyCertStats {
        SigVerifyCertStats {
            duplicate_certs_skipped_before_verify: 0,
            certs_to_sig_verify: 0,
            sig_verified_certs: 0,
            certificate_verification_failed: 0,
            too_far_in_future: 0,
            already_banned: 0,
        }
    }

    /// Counts certificates that verified.
    pub fn record_verified(&mut self, certs: usize)
        requires
            old(self).sig_verified_certs + certs <= u64::MAX,
        ensures
            *final(self) == (SigVerifyCertStats {
                sig_verified_certs: (old(self).sig_verified_certs + certs) as u64,
                ..*old(self)
            }),
    {
        self.sig_verified_certs += certs as u64;
    }

    /// Counts a ban, if the sender already was banned.
    pub fn record_ban(&mut self, already_banned: bool)
        requires
            old(self).already_banned < u64::MAX,
        ensures
            *final(self) == (SigVerifyCertStats {
                already_banned: (old(self).already_banned + if already_banned {
                    1int
                } else {
                    0int
                }) as u64,
                ..*old(self)
            }),
    {
        if already_banned {
            self.already_banned += 1;
        }
    }
}

impl Default for SigVerifyCertStats {
    fn default() -> (stats: Self)
        ensures
            stats == SigVerifyCertStats::zero(),
    {
        SigVerifyCertStats {
            duplicate_certs_skipped_before_verify: 0,
            certs_to_sig_verify: 0,
            sig_verified_certs: 0,
            certificate_verification_failed: 0,
            too_far_in_future: 0,
            already_banned: 0,
        }
    }
}

/// No certificate of the same type comes before the one at `i`.
pub open spec fn is_first<C>(certs: Seq<CertPayload<C>>, i: int) -> bool {
    forall|j: int| 0 <= j < i ==> (#[trigger] certs[j]).cert_type != certs[i].cert_type
}

/// Of the first `n` certificates, those that are verified, in order: the first of each type that
/// was not seen before.
pub open spec fn selected<C>(
    seen: Set<CertificateType>,
    certs: Seq<CertPayload<C>>,
    n: int,
) -> Seq<CertPayload<C>>
    decreases n,
{
    if n <= 0 {
        Seq::empty()
    } else if !seen.contains(certs[n - 1].cert_type) && is_first(certs, n - 1) {
        selected(seen, certs, n - 1).push(certs[n - 1])
    } else {
        selected(seen, certs, n - 1)
    }
}

/// The types of the first `n` certificates.
pub open spec fn types_of<C>(certs: Seq<CertPayload<C>>, n: int) -> Set<CertificateType> {
    Set::new(
        |cert_type: CertificateType|
            exists|i: int| 0 <= i < n && (#[trigger] certs[i]).cert_type == cert_type,
    )
}

proof fn lemma_types_step<C>(seen: Set<CertificateType>, certs: Seq<CertPayload<C>>, n: int)
    requires
        0 <= n < certs.len(),
    ensures
        seen.union(types_of(certs, n)).insert(certs[n].cert_type) == seen.union(
            types_of(certs, n + 1),
        ),
        seen.union(types_of(certs, n)).contains(certs[n].cert_type) == (seen.contains(
            certs[n].cert_type,
        ) || !is_first(certs, n)),
{
    assert forall|cert_type: CertificateType|
        seen.union(types_of(certs, n)).insert(certs[n].cert_type).contains(cert_type)
            == #[trigger] seen.union(types_of(certs, n + 1)).contains(cert_type) by {
        if types_of(certs, n).contains(cert_type) {
            let i = choose|i: int| 0 <= i < n && (#[trigger] certs[i]).cert_type == cert_type;
            assert(certs[i].cert_type == cert_type && 0 <= i < n + 1);
        }
        if cert_type == certs[n].cert_type {
            assert(certs[n].cert_type == cert_type && 0 <= n < n + 1);
        }
    }
    assert(seen.union(types_of(certs, n)).insert(certs[n].cert_type) =~= seen.union(
        types_of(certs, n + 1),
    ));
}

proof fn lemma_selected_len<C>(seen: Set<CertificateType>, certs: Seq<CertPayload<C>>, n: int)
    requires
        0 <= n,
    ensures
        selected(seen, certs, n).len() <= n,
    decreases n,
{
    if n > 0 {
        lemma_selected_len(seen, certs, n - 1);
    }
}

/// The counters after certificates were selected.
pub open spec fn selection_counted(
    stats: SigVerifyCertStats,
    certs: nat,
    selected: nat,
) -> SigVerifyCertStats {
    SigVerifyCertStats {
        duplicate_certs_skipped_before_verify: (stats.duplicate_certs_skipped_before_verify + certs
            - selected) as u64,
        certs_to_sig_verify: (stats.certs_to_sig_verify + selected) as u64,
        ..stats
    }
}

/// Selects the certificates that are to be verified: the first of each type that was not seen
/// before. The types of all of them count as seen from then on.
pub fn select_certs<C>(
    certs: Vec<CertPayload<C>>,
    seen_certs: &mut SeenCerts,
    stats: &mut SigVerifyCertStats,
) -> (certs_to_verify: Vec<CertPayload<C>>)
    requires
        old(seen_certs).wf(),
        old(stats).duplicate_certs_skipped_before_verify + certs@.len() <= u64::MAX,
        old(stats).certs_to_sig_verify + certs@.len() <= u64::MAX,
    ensures
        final(seen_certs).wf(),
        final(seen_certs)@ == old(seen_certs)@.union(types_of(certs@, certs@.len() as int)),
        certs_to_verify@ == selected(old(seen_certs)@, certs@, certs@.len() as int),
        *final(stats) == selection_counted(*old(stats), certs@.len(), certs_to_verify@.len()),
        forall|k: int|
            0 <= k < certs_to_verify@.len() ==> exists|i: int|
                0 <= i < certs@.len() && #[trigger] certs@[i] == #[trigger] certs_to_verify@[k],
{
    let ghost all = certs@;
    let ghost seen = seen_certs@;
    let ghost stats0 = *stats;
    let mut certs_to_verify: Vec<CertPayload<C>> = Vec::new();
    assert(seen.union(types_of(all, 0)) =~= seen);
    for payload in it: certs
        invariant
            it.seq() == all,
            seen_certs.wf(),
            seen_certs@ == seen.union(types_of(all, it.index() as int)),
            certs_to_verify@ == selected(seen, all, it.index() as int),
            stats0.duplicate_certs_skipped_before_verify + all.len() <= u64::MAX,
            *stats == (SigVerifyCertStats {
                duplicate_certs_skipped_before_verify: (
                stats0.duplicate_certs_skipped_before_verify + it.index() - selected(
                    seen,
                    all,
                    it.index() as int,
                ).len()) as u64,
                ..stats0
            }),
    {
        proof {
            lemma_types_step(seen, all, it.index() as int);
            lemma_selected_len(seen, all, it.index() as int);
        }
        if seen_certs.insert(payload.cert_type) {
            certs_to_verify.push(payload);
        } else {
            stats.duplicate_certs_skipped_before_verify += 1;
        }
    }
    proof {
        lemma_selected_len(seen, all, all.len() as int);
        assert forall|k: int| 0 <= k < certs_to_verify@.len() implies exists|i: int|
            0 <= i < all.len() && #[trigger] all[i] == #[trigger] certs_to_verify@[k] by {
            selected_certs_were_received(seen, all, all.len(), k);
        }
    }
    stats.certs_to_sig_verify += certs_to_verify.len() as u64;
    certs_to_verify
}

/// What becomes of a certificate that was verified.
pub open spec fn bank_outcome<V>(answer: Result<V, BlsCertVerifyError>) -> Result<
    V,
    CertVerifyError,
> {
    match answer {
        Ok(cert) => Ok(cert),
        Err(err) => Err(CertVerifyError::CertVerifyFailed(err)),
    }
}

/// Decides what becomes of a certificate that was verified.
pub fn check_answer<V>(answer: Result<V, BlsCertVerifyError>) -> (result: Result<
    V,
    CertVerifyError,
>)
    ensures
        result == bank_outcome(answer),
{
    match answer {
        Ok(cert) => Ok(cert),
        Err(err) => Err(CertVerifyError::from(err)),
    }
}

/// Verifies a certificate with `verify`, unless it is about a slot that is more than `window`
/// slots ahead of the root.
pub fn verify_cert<C, V, F: FnOnce(C) -> Result<V, BlsCertVerifyError>>(
    cert: C,
    cert_type: &CertificateType,
    root_slot: u64,
    window: u64,
    verify: F,
) -> (result: Result<V, CertVerifyError>)
    requires
        !is_too_far(cert_type.of_slot(), root_slot, window) ==> call_requires(verify, (cert,)),
    ensures
        is_too_far(cert_type.of_slot(), root_slot, window) ==> result == Err::<V, _>(
            CertVerifyError::TooFarInFuture { cert_slot: cert_type.of_slot(), root_slot },
        ),
        !is_too_far(cert_type.of_slot(), root_slot, window) ==> exists|
            answer: Result<V, BlsCertVerifyError>,
        | #[trigger]
            call_ensures(verify, (cert,), answer) && result == bank_outcome(answer),
{
    let cert_slot: u64 = cert_type.slot();
    if too_far_in_future(cert_slot, root_slot, window) {
        return Err(CertVerifyError::TooFarInFuture { cert_slot, root_slot });
    }
    let answer = verify(cert);
    check_answer(answer)
}

/// A certificate, and what came of verifying it.
pub struct CheckedCert<V> {
    /// The verified certificate, or why it is not accepted.
    pub result: Result<V, CertVerifyError>,
    /// What it certifies.
    pub cert_type: CertificateType,
    /// Who sent it.
    pub sender_identity_pubkey: Pubkey,
}

/// Verifies a certificate as `verify_cert` does, and keeps what it certifies and who sent it with
/// the outcome.
pub fn check_cert<C, V, F: FnOnce(C) -> Result<V, BlsCertVerifyError>>(
    payload: CertPayload<C>,
    root_slot: u64,
    window: u64,
    verify: F,
) -> (checked: CheckedCert<V>)
    requires
        !is_too_far(payload.cert_type.of_slot(), root_slot, window) ==> call_requires(
            verify,
            (payload.cert,),
        ),
    ensures
        checked.cert_type == payload.cert_type,
        checked.sender_identity_pubkey == payload.sender_identity_pubkey,
        is_too_far(payload.cert_type.of_slot(), root_slot, window) ==> checked.result == Err::<
            V,
            _,
        >(CertVerifyError::TooFarInFuture { cert_slot: payload.cert_type.of_slot(), root_slot }),
        !is_too_far(payload.cert_type.of_slot(), root_slot, window) ==> exists|
            answer: Result<V, BlsCertVerifyError>,
        | #[trigger]
            call_ensures(verify, (payload.cert,), answer) && checked.result == bank_outcome(answer),
{
    let cert_type = payload.cert_type;
    let sender_identity_pubkey = payload.sender_identity_pubkey;
    let result = verify_cert(payload.cert, &cert_type, root_slot, window, verify);
    CheckedCert { result, cert_type, sender_identity_pubkey }
}

/// Of the first `n` certificates, those that verified, in order.
pub open spec fn verified_certs<V>(checked: Seq<CheckedCert<V>>, n: int) -> Seq<V>
    decreases n,
{
    if n <= 0 {
        Seq::empty()
    } else {
        match checked[n - 1].result {
            Ok(cert) => verified_certs(checked, n - 1).push(cert),
            Err(_) => verified_certs(checked, n - 1),
        }
    }
}

/// The senders of those of the first `n` certificates that did not verify, in order, and why they
/// did not. A certificate from too far in the future is no fault of its sender.
pub open spec fn bans<V>(checked: Seq<CheckedCert<V>>, n: int) -> Seq<(Pubkey, BlsCertVerifyError)>
    decreases n,
{
    if n <= 0 {
        Seq::empty()
    } else {
        match checked[n - 1].result {
            Err(CertVerifyError::CertVerifyFailed(err)) => bans(checked, n - 1).push(
                (checked[n - 1].sender_identity_pubkey, err),
            ),
            _ => bans(checked, n - 1),
        }
    }
}

/// The types of those of the first `n` certificates that are not accepted.
pub open spec fn rejected_types<V>(checked: Seq<CheckedCert<V>>, n: int) -> Set<CertificateType> {
    Set::new(
        |cert_type: CertificateType|
            exists|i: int|
                0 <= i < n && (#[trigger] checked[i]).cert_type == cert_type
                    && checked[i].result is Err,
    )
}

/// The counters after `n` certificates were verified: those count that are not accepted.
pub open spec fn verification_counted<V>(
    stats: SigVerifyCertStats,
    checked: Seq<CheckedCert<V>>,
    n: nat,
) -> SigVerifyCertStats {
    SigVerifyCertStats {
        certificate_verification_failed: (stats.certificate_verification_failed + count_to(
            n,
            |i: int| checked[i].result matches Err(CertVerifyError::CertVerifyFailed(_)),
        )) as u64,
        too_far_in_future: (stats.too_far_in_future + count_to(
            n,
            |i: int| checked[i].result matches Err(CertVerifyError::TooFarInFuture { .. }),
        )) as u64,
        ..stats
    }
}

proof fn lemma_counted_step<V>(checked: Seq<CheckedCert<V>>, n: nat)
    ensures
        ({
            let verified = |i: int| checked[i].result is Ok;
            let failed = |i: int|
                checked[i].result matches Err(CertVerifyError::CertVerifyFailed(_));
            let too_far = |i: int|
                checked[i].result matches Err(CertVerifyError::TooFarInFuture { .. });
            let one = |b: bool|
                if b {
                    1nat
                } else {
                    0nat
                };
            &&& count_to(n, verified) <= n
            &&& count_to(n, failed) <= n
            &&& count_to(n, too_far) <= n
            &&& count_to(n + 1, verified) == count_to(n, verified) + one(verified(n as int))
            &&& count_to(n + 1, failed) == count_to(n, failed) + one(failed(n as int))
            &&& count_to(n + 1, too_far) == count_to(n, too_far) + one(too_far(n as int))
        }),
{
    lemma_count_step(n, |i: int| checked[i].result is Ok);
    lemma_count_step(
        n,
        |i: int| checked[i].result matches Err(CertVerifyError::CertVerifyFailed(_)),
    );
    lemma_count_step(
        n,
        |i: int| checked[i].result matches Err(CertVerifyError::TooFarInFuture { .. }),
    );
}

proof fn lemma_rejected_step<V>(checked: Seq<CheckedCert<V>>, n: int)
    requires
        0 <= n < checked.len(),
    ensures
        rejected_types(checked, n + 1) == if checked[n].result is Err {
            rejected_types(checked, n).insert(checked[n].cert_type)
        } else {
            rejected_types(checked, n)
        },
{
    let before = rejected_types(checked, n);
    let after = rejected_types(checked, n + 1);
    assert forall|cert_type: CertificateType| #[trigger]
        after.contains(cert_type) == (before.contains(cert_type) || (checked[n].result is Err
            && checked[n].cert_type == cert_type)) by {
        if before.contains(cert_type) {
            let i = choose|i: int|
                0 <= i < n && (#[trigger] checked[i]).cert_type == cert_type
                    && checked[i].result is Err;
            assert(checked[i].cert_type == cert_type && 0 <= i < n + 1);
        }
        if checked[n].result is Err && checked[n].cert_type == cert_type {
            assert(checked[n].cert_type == cert_type && 0 <= n < n + 1);
        }
    }
    if checked[n].result is Err {
        assert(after =~= before.insert(checked[n].cert_type));
    } else {
        assert(after =~= before);
    }
}

/// What is done with certificates that were verified.
pub struct CertVerdicts<V> {
    /// The certificates that are passed on.
    pub certs: Vec<V>,
    /// The senders that are banned, and why.
    pub bans: Vec<(Pubkey, BlsCertVerifyError)>,
}

/// Decides what is done with certificates that were verified. Those that verified are passed on.
/// The types of the others count as unseen again, so that they can be retried. The senders of
/// those that did not verify are banned.
pub fn verify_certs<V>(
    checked: Vec<CheckedCert<V>>,
    seen_certs: &mut SeenCerts,
    stats: &mut SigVerifyCertStats,
) -> (verdicts: CertVerdicts<V>)
    requires
        old(seen_certs).wf(),
        old(stats).certificate_verification_failed + checked@.len() <= u64::MAX,
        old(stats).too_far_in_future + checked@.len() <= u64::MAX,
    ensures
        final(seen_certs).wf(),
        final(seen_certs)@ == old(seen_certs)@.difference(
            rejected_types(checked@, checked@.len() as int),
        ),
        verdicts.certs@ == verified_certs(checked@, checked@.len() as int),
        verdicts.bans@ == bans(checked@, checked@.len() as int),
        *final(stats) == verification_counted(*old(stats), checked@, checked@.len()),
{
    let ghost all = checked@;
    let ghost seen = seen_certs@;
    let ghost stats0 = *stats;
    let mut certs: Vec<V> = Vec::new();
    let mut senders: Vec<(Pubkey, BlsCertVerifyError)> = Vec::new();
    assert(seen.difference(rejected_types(all, 0)) =~= seen);
    for entry in it: checked
        invariant
            it.seq() == all,
            seen_certs.wf(),
            seen_certs@ == seen.difference(rejected_types(all, it.index() as int)),
            certs@ == verified_certs(all, it.index() as int),
            senders@ == bans(all, it.index() as int),
            stats0.certificate_verification_failed + all.len() <= u64::MAX,
            stats0.too_far_in_future + all.len() <= u64::MAX,
            *stats == verification_counted(stats0, all, it.index() as nat),
    {
        let ghost n = it.index() as int;
        proof {
            lemma_counted_step(all, n as nat);
            lemma_rejected_step(all, n);
        }
        match entry.result {
            Ok(cert) => {
                certs.push(cert);
            },
            Err(err) => {
                seen_certs.remove(&entry.cert_type);
                match err {
                    CertVerifyError::CertVerifyFailed(err) => {
                        stats.certificate_verification_failed += 1;
                        senders.push((entry.sender_identity_pubkey, err));
                    },
                    CertVerifyError::TooFarInFuture { .. } => {
                        stats.too_far_in_future += 1;
                    },
                }
            },
        }
        assert(seen_certs@ =~= seen.difference(rejected_types(all, n + 1)));
    }
    CertVerdicts { certs, bans: senders }
}

/// Whether a certificate of a type is in a list.
pub open spec fn lists_type<C>(certs: Seq<CertPayload<C>>, cert_type: CertificateType) -> bool {
    exists|k: int| 0 <= k < certs.len() && (#[trigger] certs[k]).cert_type == cert_type
}

/// A type is selected if and only if it is among the certificates and was not seen before.
proof fn lemma_selected_types<C>(
    seen: Set<CertificateType>,
    certs: Seq<CertPayload<C>>,
    n: int,
    cert_type: CertificateType,
)
    requires
        0 <= n <= certs.len(),
    ensures
        lists_type(selected(seen, certs, n), cert_type) <==> types_of(certs, n).contains(cert_type)
            && !seen.contains(cert_type),
    decreases n,
{
    if n > 0 {
        lemma_selected_types(seen, certs, n - 1, cert_type);
        lemma_types_step(seen, certs, n - 1);
        let before = selected(seen, certs, n - 1);
        let after = selected(seen, certs, n);
        if lists_type(before, cert_type) {
            let k = choose|k: int|
                0 <= k < before.len() && (#[trigger] before[k]).cert_type == cert_type;
            assert(after[k].cert_type == cert_type);
        }
        if lists_type(after, cert_type) {
            let k = choose|k: int|
                0 <= k < after.len() && (#[trigger] after[k]).cert_type == cert_type;
            if k < before.len() {
                assert(before[k].cert_type == cert_type);
            }
        }
        if cert_type == certs[n - 1].cert_type && !seen.contains(cert_type) && is_first(
            certs,
            n - 1,
        ) {
            assert(after[before.len() as int].cert_type == cert_type);
        }
        assert(types_of(certs, n).contains(cert_type) == (types_of(certs, n - 1).contains(cert_type)
            || certs[n - 1].cert_type == cert_type)) by {
            if types_of(certs, n - 1).contains(cert_type) {
                let i = choose|i: int|
                    0 <= i < n - 1 && (#[trigger] certs[i]).cert_type == cert_type;
                assert(certs[i].cert_type == cert_type && 0 <= i < n);
            }
            if certs[n - 1].cert_type == cert_type {
                assert(certs[n - 1].cert_type == cert_type && 0 <= n - 1 < n);
            }
        }
        if certs[n - 1].cert_type == cert_type && !is_first(certs, n - 1) {
            let j = choose|j: int|
                0 <= j < n - 1 && (#[trigger] certs[j]).cert_type == certs[n - 1].cert_type;
            assert(types_of(certs, n - 1).contains(cert_type));
        }
    }
}

/// No type is verified twice, and none that was seen before: of all certificates of a new type
/// exactly one is selected.
pub proof fn one_of_each_new_type_is_selected<C>(
    seen: Set<CertificateType>,
    certs: Seq<CertPayload<C>>,
    cert_type: CertificateType,
)
    ensures
        ({
            let chosen = selected(seen, certs, certs.len() as int);
            &&& lists_type(chosen, cert_type) <==> lists_type(certs, cert_type) && !seen.contains(
                cert_type,
            )
            &&& forall|i: int, j: int|
                0 <= i < j < chosen.len() ==> (#[trigger] chosen[i]).cert_type != (
                #[trigger] chosen[j]).cert_type
        }),
{
    lemma_selected_types(seen, certs, certs.len() as int, cert_type);
    lemma_selected_distinct(seen, certs, certs.len() as int);
}

proof fn lemma_selected_distinct<C>(seen: Set<CertificateType>, certs: Seq<CertPayload<C>>, n: int)
    requires
        0 <= n <= certs.len(),
    ensures
        forall|i: int, j: int|
            0 <= i < j < selected(seen, certs, n).len() ==> (#[trigger] selected(
                seen,
                certs,
                n,
            )[i]).cert_type != (#[trigger] selected(seen, certs, n)[j]).cert_type,
    decreases n,
{
    if n > 0 {
        lemma_selected_distinct(seen, certs, n - 1);
        let before = selected(seen, certs, n - 1);
        let after = selected(seen, certs, n);
        lemma_selected_types(seen, certs, n - 1, certs[n - 1].cert_type);
        lemma_types_step(seen, certs, n - 1);
        assert forall|i: int, j: int| 0 <= i < j < after.len() implies (
        #[trigger] after[i]).cert_type != (#[trigger] after[j]).cert_type by {
            if j < before.len() {
                assert(before[i].cert_type != before[j].cert_type);
            } else {
                assert(after[i] == before[i]);
                assert(!lists_type(before, certs[n - 1].cert_type));
            }
        }
    }
}

/// A certificate that is not accepted can be retried: the next one of its type is verified.
pub proof fn rejected_certs_can_be_retried<C, V>(
    seen: Set<CertificateType>,
    checked: Seq<CheckedCert<V>>,
    i: int,
    next: Seq<CertPayload<C>>,
)
    requires
        0 <= i < checked.len(),
        checked[i].result is Err,
        lists_type(next, checked[i].cert_type),
    ensures
        lists_type(
            selected(
                seen.difference(rejected_types(checked, checked.len() as int)),
                next,
                next.len() as int,
            ),
            checked[i].cert_type,
        ),
{
    let after = seen.difference(rejected_types(checked, checked.len() as int));
    assert(rejected_types(checked, checked.len() as int).contains(checked[i].cert_type));
    lemma_selected_types(after, next, next.len() as int, checked[i].cert_type);
}

/// A certificate that was accepted is not verified again: none of its type is selected later.
pub proof fn accepted_certs_are_not_verified_again<C, V>(
    seen: Set<CertificateType>,
    checked: Seq<CheckedCert<V>>,
    i: int,
    next: Seq<CertPayload<C>>,
)
    requires
        0 <= i < checked.len(),
        checked[i].result is Ok,
        seen.contains(checked[i].cert_type),
        forall|j: int, k: int|
            0 <= j < k < checked.len() ==> (#[trigger] checked[j]).cert_type != (
            #[trigger] checked[k]).cert_type,
    ensures
        !lists_type(
            selected(
                seen.difference(rejected_types(checked, checked.len() as int)),
                next,
                next.len() as int,
            ),
            checked[i].cert_type,
        ),
{
    let rejected = rejected_types(checked, checked.len() as int);
    let cert_type = checked[i].cert_type;
    if rejected.contains(cert_type) {
        let j = choose|j: int|
            0 <= j < checked.len() && (#[trigger] checked[j]).cert_type == cert_type
                && checked[j].result is Err;
        if j < i {
            assert(checked[j].cert_type != checked[i].cert_type);
        } else if i < j {
            assert(checked[i].cert_type != checked[j].cert_type);
        }
    }
    lemma_selected_types(seen.difference(rejected), next, next.len() as int, cert_type);
}

/// Every certificate is either passed on, or did not verify, or is from too far in the future. As
/// many are passed on as count as verified, and as many senders are banned as certificates did not
/// verify.
pub proof fn every_cert_counts_once<V>(checked: Seq<CheckedCert<V>>, n: nat)
    requires
        n <= checked.len(),
    ensures
        ({
            let verified = count_to(n, |i: int| checked[i].result is Ok);
            let failed = count_to(
                n,
                |i: int| checked[i].result matches Err(CertVerifyError::CertVerifyFailed(_)),
            );
            let too_far = count_to(
                n,
                |i: int| checked[i].result matches Err(CertVerifyError::TooFarInFuture { .. }),
            );
            &&& verified + failed + too_far == n
            &&& verified_certs(checked, n as int).len() == verified
            &&& bans(checked, n as int).len() == failed
        }),
    decreases n,
{
    if n > 0 {
        every_cert_counts_once(checked, (n - 1) as nat);
        lemma_counted_step(checked, (n - 1) as nat);
    }
}

/// The outcomes are those of the selected certificates, in order.
pub open spec fn checks<C, V>(checked: Seq<CheckedCert<V>>, chosen: Seq<CertPayload<C>>) -> bool {
    &&& checked.len() == chosen.len()
    &&& forall|k: int|
        0 <= k < chosen.len() ==> {
            &&& (#[trigger] checked[k]).cert_type == chosen[k].cert_type
            &&& checked[k].sender_identity_pubkey == chosen[k].sender_identity_pubkey
        }
}

/// The types of the certificates that are accepted.
pub open spec fn accepted_types<V>(checked: Seq<CheckedCert<V>>) -> Set<CertificateType> {
    Set::new(
        |cert_type: CertificateType|
            exists|i: int|
                0 <= i < checked.len() && (#[trigger] checked[i]).cert_type == cert_type
                    && checked[i].result is Ok,
    )
}

/// What counts as seen after a call: all types of the certificates are added, and those that are
/// not accepted are taken out again.
pub open spec fn seen_after<C, V>(
    seen: Set<CertificateType>,
    certs: Seq<CertPayload<C>>,
    checked: Seq<CheckedCert<V>>,
) -> Set<CertificateType> {
    seen.union(types_of(certs, certs.len() as int)).difference(
        rejected_types(checked, checked.len() as int),
    )
}

/// After a call those types count as seen that did before, and those that were accepted. No other
/// type does.
pub proof fn seen_grows_by_what_is_accepted<C, V>(
    seen: Set<CertificateType>,
    certs: Seq<CertPayload<C>>,
    checked: Seq<CheckedCert<V>>,
)
    requires
        checks(checked, selected(seen, certs, certs.len() as int)),
    ensures
        seen_after(seen, certs, checked) == seen.union(accepted_types(checked)),
{
    let n = certs.len() as int;
    let chosen = selected(seen, certs, n);
    let rejected = rejected_types(checked, checked.len() as int);
    let accepted = accepted_types(checked);
    lemma_selected_distinct(seen, certs, n);
    assert forall|cert_type: CertificateType| #[trigger]
        seen_after(seen, certs, checked).contains(cert_type) == seen.union(accepted).contains(
            cert_type,
        ) by {
        lemma_selected_types(seen, certs, n, cert_type);
        if lists_type(chosen, cert_type) {
            let k = choose|k: int|
                0 <= k < chosen.len() && (#[trigger] chosen[k]).cert_type == cert_type;
            lemma_one_outcome(seen, certs, checked, k);
        }
        if rejected.contains(cert_type) {
            let i = choose|i: int|
                0 <= i < checked.len() && (#[trigger] checked[i]).cert_type == cert_type
                    && checked[i].result is Err;
            assert(chosen[i].cert_type == cert_type);
        }
        if accepted.contains(cert_type) {
            let i = choose|i: int|
                0 <= i < checked.len() && (#[trigger] checked[i]).cert_type == cert_type
                    && checked[i].result is Ok;
            assert(chosen[i].cert_type == cert_type);
        }
    }
    assert(seen_after(seen, certs, checked) =~= seen.union(accepted));
}

/// A selected type is either accepted or not.
proof fn lemma_one_outcome<C, V>(
    seen: Set<CertificateType>,
    certs: Seq<CertPayload<C>>,
    checked: Seq<CheckedCert<V>>,
    k: int,
)
    requires
        checks(checked, selected(seen, certs, certs.len() as int)),
        0 <= k < checked.len(),
    ensures
        accepted_types(checked).contains(checked[k].cert_type) == (checked[k].result is Ok),
        rejected_types(checked, checked.len() as int).contains(checked[k].cert_type) == (
        checked[k].result is Err),
{
    let chosen = selected(seen, certs, certs.len() as int);
    let cert_type = checked[k].cert_type;
    lemma_selected_distinct(seen, certs, certs.len() as int);
    assert forall|i: int| 0 <= i < checked.len() && i != k implies (
    #[trigger] checked[i]).cert_type != cert_type by {
        assert(checked[k].cert_type == chosen[k].cert_type);
        if i < k {
            assert(chosen[i].cert_type != chosen[k].cert_type);
        } else {
            assert(chosen[k].cert_type != chosen[i].cert_type);
        }
    }
    assert(checked[k].cert_type == cert_type);
}

/// The counters after a call: certificates were selected, verified, and passed on.
pub open spec fn call_counted<V>(
    stats: SigVerifyCertStats,
    certs: nat,
    checked: Seq<CheckedCert<V>>,
) -> SigVerifyCertStats {
    let counted = verification_counted(
        selection_counted(stats, certs, checked.len()),
        checked,
        checked.len(),
    );
    SigVerifyCertStats {
        sig_verified_certs: (counted.sig_verified_certs + verified_certs(
            checked,
            checked.len() as int,
        ).len()) as u64,
        ..counted
    }
}

/// Every certificate that a call is given is skipped as a duplicate, or passed on, or did not
/// verify, or is from too far in the future. All but the first count as to be verified.
pub proof fn counts_of_a_call_add_up<C, V>(
    seen: Set<CertificateType>,
    certs: Seq<CertPayload<C>>,
    checked: Seq<CheckedCert<V>>,
    stats: SigVerifyCertStats,
)
    requires
        checks(checked, selected(seen, certs, certs.len() as int)),
        stats.duplicate_certs_skipped_before_verify + certs.len() <= u64::MAX,
        stats.certs_to_sig_verify + certs.len() <= u64::MAX,
        stats.sig_verified_certs + certs.len() <= u64::MAX,
        stats.certificate_verification_failed + certs.len() <= u64::MAX,
        stats.too_far_in_future + certs.len() <= u64::MAX,
    ensures
        ({
            let after = call_counted(stats, certs.len(), checked);
            let skipped = after.duplicate_certs_skipped_before_verify
                - stats.duplicate_certs_skipped_before_verify;
            let to_verify = after.certs_to_sig_verify - stats.certs_to_sig_verify;
            let verified = after.sig_verified_certs - stats.sig_verified_certs;
            let failed = after.certificate_verification_failed
                - stats.certificate_verification_failed;
            let too_far = after.too_far_in_future - stats.too_far_in_future;
            &&& skipped + verified + failed + too_far == certs.len()
            &&& to_verify == verified + failed + too_far
            &&& after.already_banned == stats.already_banned
        }),
{
    lemma_selected_len(seen, certs, certs.len() as int);
    every_cert_counts_once(checked, checked.len());
}

/// Of the first `n` selected certificates, those that were not accepted, in order.
pub open spec fn retried<C, V>(
    chosen: Seq<CertPayload<C>>,
    checked: Seq<CheckedCert<V>>,
    n: int,
) -> Seq<CertPayload<C>>
    decreases n,
{
    if n <= 0 {
        Seq::empty()
    } else if checked[n - 1].result is Err {
        retried(chosen, checked, n - 1).push(chosen[n - 1])
    } else {
        retried(chosen, checked, n - 1)
    }
}

/// Selecting among more certificates adds to what is selected.
proof fn lemma_selected_prefix<C>(
    seen: Set<CertificateType>,
    certs: Seq<CertPayload<C>>,
    m: int,
    n: int,
)
    requires
        0 <= m <= n,
    ensures
        selected(seen, certs, m).len() <= selected(seen, certs, n).len(),
        selected(seen, certs, n).take(selected(seen, certs, m).len() as int) == selected(
            seen,
            certs,
            m,
        ),
    decreases n,
{
    let first = selected(seen, certs, m);
    if m == n {
        assert(first.take(first.len() as int) =~= first);
    } else {
        lemma_selected_prefix(seen, certs, m, n - 1);
        let before = selected(seen, certs, n - 1);
        let after = selected(seen, certs, n);
        assert(after.take(first.len() as int) =~= before.take(first.len() as int));
    }
}

/// What is selected in a second call is what was selected and not accepted in the first.
proof fn lemma_retried<C, V>(
    seen: Set<CertificateType>,
    certs: Seq<CertPayload<C>>,
    checked: Seq<CheckedCert<V>>,
    n: int,
)
    requires
        0 <= n <= certs.len(),
        checks(checked, selected(seen, certs, certs.len() as int)),
    ensures
        selected(seen_after(seen, certs, checked), certs, n) == retried(
            selected(seen, certs, certs.len() as int),
            checked,
            selected(seen, certs, n).len() as int,
        ),
    decreases n,
{
    if n > 0 {
        let chosen = selected(seen, certs, certs.len() as int);
        let later = seen_after(seen, certs, checked);
        let cert_type = certs[n - 1].cert_type;
        lemma_retried(seen, certs, checked, n - 1);
        seen_grows_by_what_is_accepted(seen, certs, checked);
        if !seen.contains(cert_type) && is_first(certs, n - 1) {
            let k = selected(seen, certs, n - 1).len() as int;
            lemma_selected_prefix(seen, certs, n, certs.len() as int);
            assert(selected(seen, certs, n)[k] == certs[n - 1]);
            assert(chosen.take(k + 1)[k] == chosen[k]);
            assert(checked[k].cert_type == chosen[k].cert_type);
            lemma_one_outcome(seen, certs, checked, k);
        }
    }
}

/// If the same certificates come again, those that were accepted are skipped as duplicates, and
/// those that were not are verified again. If they are not accepted again, what counts as seen
/// stays as it was after the first call.
pub proof fn same_certs_again<C, V>(
    seen: Set<CertificateType>,
    certs: Seq<CertPayload<C>>,
    checked: Seq<CheckedCert<V>>,
    again: Seq<CheckedCert<V>>,
)
    requires
        checks(checked, selected(seen, certs, certs.len() as int)),
        checks(
            again,
            selected(seen_after(seen, certs, checked), certs, certs.len() as int),
        ),
        certs.len() <= u64::MAX,
    ensures
        ({
            let n = certs.len() as int;
            let chosen = selected(seen, certs, n);
            let later = seen_after(seen, certs, checked);
            let rejected = count_to(checked.len(), |i: int| checked[i].result is Err);
            let stats = call_counted(SigVerifyCertStats::zero(), certs.len(), again);
            &&& selected(later, certs, n) == retried(chosen, checked, chosen.len() as int)
            &&& stats.certs_to_sig_verify == rejected
            &&& stats.duplicate_certs_skipped_before_verify == certs.len() - rejected
            &&& (forall|k: int| 0 <= k < again.len() ==> (#[trigger] again[k]).result is Err)
                ==> seen_after(later, certs, again) == later
        }),
{
    let chosen = selected(seen, certs, certs.len() as int);
    let later = seen_after(seen, certs, checked);
    lemma_retried(seen, certs, checked, certs.len() as int);
    lemma_retried_len(chosen, checked, checked.len());
    lemma_selected_len(later, certs, certs.len() as int);
    seen_grows_by_what_is_accepted(later, certs, again);
    if forall|k: int| 0 <= k < again.len() ==> (#[trigger] again[k]).result is Err {
        assert(later.union(accepted_types(again)) =~= later);
    }
}

proof fn lemma_retried_len<C, V>(
    chosen: Seq<CertPayload<C>>,
    checked: Seq<CheckedCert<V>>,
    n: nat,
)
    ensures
        retried(chosen, checked, n as int).len() == count_to(
            n,
            |i: int| checked[i].result is Err,
        ),
    decreases n,
{
    if n > 0 {
        lemma_retried_len(chosen, checked, (n - 1) as nat);
        lemma_count_step((n - 1) as nat, |i: int| checked[i].result is Err);
    }
}

/// The certificates that are verified are received ones, unchanged and in the order in which they
/// came: those of a type that was not seen before and that none before them has.
pub proof fn selected_certs_are_received_unchanged<C>(
    seen: Set<CertificateType>,
    certs: Seq<CertPayload<C>>,
    n: nat,
)
    requires
        n <= certs.len(),
    ensures
        ({
            let chosen = selected(seen, certs, n as int);
            let at = positions(
                n,
                |i: int|
                    !seen.contains(certs[i].cert_type) && forall|j: int|
                        0 <= j < i ==> (#[trigger] certs[j]).cert_type != certs[i].cert_type,
            );
            &&& chosen.len() == at.len()
            &&& forall|k: int| 0 <= k < chosen.len() ==> #[trigger] chosen[k] == certs[at[k]]
        }),
    decreases n,
{
    if n > 0 {
        selected_certs_are_received_unchanged(seen, certs, (n - 1) as nat);
    }
}

/// Each certificate that is verified was received: certificate, type and sender alike. Its type was
/// not seen before, and none of its type was received before it.
pub proof fn selected_certs_were_received<C>(
    seen: Set<CertificateType>,
    certs: Seq<CertPayload<C>>,
    n: nat,
    k: int,
)
    requires
        n <= certs.len(),
        0 <= k < selected(seen, certs, n as int).len(),
    ensures
        exists|i: int|
            {
                &&& 0 <= i < n
                &&& selected(seen, certs, n as int)[k] == #[trigger] certs[i]
                &&& selected(seen, certs, n as int)[k].cert == certs[i].cert
                &&& selected(seen, certs, n as int)[k].cert_type == certs[i].cert_type
                &&& selected(seen, certs, n as int)[k].sender_identity_pubkey
                    == certs[i].sender_identity_pubkey
                &&& !seen.contains(certs[i].cert_type)
                &&& forall|j: int|
                    0 <= j < i ==> (#[trigger] certs[j]).cert_type != certs[i].cert_type
            },
{
    let p = |i: int|
        !seen.contains(certs[i].cert_type) && forall|j: int|
            0 <= j < i ==> (#[trigger] certs[j]).cert_type != certs[i].cert_type;
    selected_certs_are_received_unchanged(seen, certs, n);
    positions_have_the_property(n, p);
    let i = positions(n, p)[k];
    assert(p(i));
    assert(selected(seen, certs, n as int)[k] == certs[i]);
}

/// The certificates that are passed on are those that verified, in order and as they were verified.
/// The bans are those of the senders of the certificates that did not verify, in order, each with
/// the reason.
pub proof fn verdicts_follow_the_outcomes<V>(checked: Seq<CheckedCert<V>>, n: nat)
    ensures
        ({
            let passed = verified_certs(checked, n as int);
            let at = positions(n, |i: int| checked[i].result is Ok);
            let senders = bans(checked, n as int);
            let failed_at = positions(
                n,
                |i: int| checked[i].result matches Err(CertVerifyError::CertVerifyFailed(_)),
            );
            &&& passed.len() == at.len()
            &&& forall|k: int|
                0 <= k < passed.len() ==> checked[at[k]].result == Ok::<V, CertVerifyError>(
                    #[trigger] passed[k],
                )
            &&& senders.len() == failed_at.len()
            &&& forall|k: int|
                0 <= k < senders.len() ==> {
                    &&& (#[trigger] senders[k]).0 == checked[failed_at[k]].sender_identity_pubkey
                    &&& checked[failed_at[k]].result == Err::<V, CertVerifyError>(
                        CertVerifyError::CertVerifyFailed(senders[k].1),
                    )
                }
        }),
    decreases n,
{
    if n > 0 {
        verdicts_follow_the_outcomes(checked, (n - 1) as nat);
    }
}

/// Each key that is banned is that of the sender of a received certificate that did not verify, and
/// the sender of each such certificate is banned.
pub proof fn banned_keys_are_those_of_senders<C, V>(
    seen: Set<CertificateType>,
    certs: Seq<CertPayload<C>>,
    checked: Seq<CheckedCert<V>>,
)
    requires
        checks(checked, selected(seen, certs, certs.len() as int)),
    ensures
        forall|k: int|
            0 <= k < bans(checked, checked.len() as int).len() ==> exists|i: int, j: int|
                #![trigger certs[i], checked[j]]
                {
                    let ban = #[trigger] bans(checked, checked.len() as int)[k];
                    &&& 0 <= i < certs.len()
                    &&& 0 <= j < checked.len()
                    &&& ban.0 == certs[i].sender_identity_pubkey
                    &&& checked[j].cert_type == certs[i].cert_type
                    &&& checked[j].result == Err::<V, _>(CertVerifyError::CertVerifyFailed(ban.1))
                },
        forall|j: int|
            0 <= j < checked.len() && ((#[trigger] checked[j]).result matches Err(
                CertVerifyError::CertVerifyFailed(_),
            )) ==> exists|k: int|
                0 <= k < bans(checked, checked.len() as int).len() && (#[trigger] bans(
                    checked,
                    checked.len() as int,
                )[k]).0 == checked[j].sender_identity_pubkey,
{
    let n = checked.len();
    let senders = bans(checked, n as int);
    let chosen = selected(seen, certs, certs.len() as int);
    let failed = |i: int| checked[i].result matches Err(CertVerifyError::CertVerifyFailed(_));
    let at = positions(n, failed);
    verdicts_follow_the_outcomes(checked, n);
    positions_have_the_property(n, failed);
    assert forall|k: int| 0 <= k < senders.len() implies exists|i: int, j: int|
        #![trigger certs[i], checked[j]]
        {
            let ban = #[trigger] senders[k];
            &&& 0 <= i < certs.len()
            &&& 0 <= j < checked.len()
            &&& ban.0 == certs[i].sender_identity_pubkey
            &&& checked[j].cert_type == certs[i].cert_type
            &&& checked[j].result == Err::<V, _>(CertVerifyError::CertVerifyFailed(ban.1))
        } by {
        let j = at[k];
        selected_certs_were_received(seen, certs, certs.len(), j);
        let i = choose|i: int| 0 <= i < certs.len() && chosen[j] == #[trigger] certs[i];
        assert(checked[j].cert_type == certs[i].cert_type);
    }
    assert forall|j: int|
        0 <= j < checked.len() && ((#[trigger] checked[j]).result matches Err(
            CertVerifyError::CertVerifyFailed(_),
        )) implies exists|k: int|
        0 <= k < senders.len() && (#[trigger] senders[k]).0
            == checked[j].sender_identity_pubkey by {
        assert(failed(j));
        let k = choose|k: int| 0 <= k < at.len() && at[k] == j;
        assert(senders[k].0 == checked[j].sender_identity_pubkey);
    }
}

/// Types are those of the certificates, and rejected types are those of the certificates that are
/// not accepted.
pub proof fn types_are_those_of_the_certs<C, V>(
    certs: Seq<CertPayload<C>>,
    checked: Seq<CheckedCert<V>>,
    cert_type: CertificateType,
)
    ensures
        types_of(certs, certs.len() as int).contains(cert_type) <==> exists|i: int|
            0 <= i < certs.len() && (#[trigger] certs[i]).cert_type == cert_type,
        rejected_types(checked, checked.len() as int).contains(cert_type) <==> exists|i: int|
            0 <= i < checked.len() && (#[trigger] checked[i]).cert_type == cert_type
                && checked[i].result is Err,
{
}

/// Selecting counts each certificate either as to be verified or as skipped. Verifying counts those
/// that did not verify and those from too far in the future apart. No other counter changes.
pub proof fn counters_of_certs_are_kept_apart<V>(
    stats: SigVerifyCertStats,
    certs: nat,
    chosen: nat,
    checked: Seq<CheckedCert<V>>,
)
    requires
        chosen <= certs,
        stats.duplicate_certs_skipped_before_verify + certs <= u64::MAX,
        stats.certs_to_sig_verify + certs <= u64::MAX,
        stats.certificate_verification_failed + checked.len() <= u64::MAX,
        stats.too_far_in_future + checked.len() <= u64::MAX,
    ensures
        ({
            let after = selection_counted(stats, certs, chosen);
            &&& after.duplicate_certs_skipped_before_verify + chosen
                == stats.duplicate_certs_skipped_before_verify + certs
            &&& after.certs_to_sig_verify == stats.certs_to_sig_verify + chosen
            &&& after.sig_verified_certs == stats.sig_verified_certs
            &&& after.certificate_verification_failed == stats.certificate_verification_failed
            &&& after.too_far_in_future == stats.too_far_in_future
            &&& after.already_banned == stats.already_banned
        }),
        ({
            let after = verification_counted(stats, checked, checked.len());
            &&& after.certificate_verification_failed == stats.certificate_verification_failed
                + positions(
                checked.len(),
                |i: int| checked[i].result matches Err(CertVerifyError::CertVerifyFailed(_)),
            ).len()
            &&& after.too_far_in_future == stats.too_far_in_future + positions(
                checked.len(),
                |i: int| checked[i].result matches Err(CertVerifyError::TooFarInFuture { .. }),
            ).len()
            &&& after.duplicate_certs_skipped_before_verify
                == stats.duplicate_certs_skipped_before_verify
            &&& after.certs_to_sig_verify == stats.certs_to_sig_verify
            &&& after.sig_verified_certs == stats.sig_verified_certs
            &&& after.already_banned == stats.already_banned
        }),
        ({
            let zero = SigVerifyCertStats::zero();
            &&& zero.duplicate_certs_skipped_before_verify == 0
            &&& zero.certs_to_sig_verify == 0
            &&& zero.sig_verified_certs == 0
            &&& zero.certificate_verification_failed == 0
            &&& zero.too_far_in_future == 0
            &&& zero.already_banned == 0
        }),
{
    let n = checked.len();
    counts_are_numbers_of_positions(
        n,
        |i: int| checked[i].result matches Err(CertVerifyError::CertVerifyFailed(_)),
    );
    counts_are_numbers_of_positions(
        n,
        |i: int| checked[i].result matches Err(CertVerifyError::TooFarInFuture { .. }),
    );
    lemma_counted_step(checked, n);
}

/// A certificate is accepted if and only if it verified, and as what it was verified to be.
/// Otherwise the reason is kept.
pub proof fn answers_decide<V>(answer: Result<V, BlsCertVerifyError>, err: BlsCertVerifyError)
    ensures
        bank_outcome(answer) is Ok <==> answer is Ok,
        answer matches Ok(cert) ==> bank_outcome(answer) == Ok::<V, CertVerifyError>(cert),
        answer matches Err(err) ==> bank_outcome(answer) == Err::<V, _>(
            CertVerifyError::CertVerifyFailed(err),
        ),
        <CertVerifyError as vstd::std_specs::convert::FromSpec<BlsCertVerifyError>>::from_spec(err)
            == CertVerifyError::CertVerifyFailed(err),
{
}

} // verus!
