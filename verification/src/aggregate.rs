//! The aggregator: walk a batch of records in order, recover each signer,
//! suppress duplicate addresses, verify each Merkle inclusion proof, sum the
//! verified balances, and classify the total against a closed range.

use vstd::prelude::*;
use vstd::string::StringSliceAdditionalSpecFns;
use vstd::utf8::encode_utf8;

use crate::codec::{parse_32_bytes, spec_parse_32_bytes};
use crate::errors::FatalError;
use crate::merkle::{compute_inclusion_root, hash_leaf, spec_fold, spec_hash_leaf, views_of};
use crate::recover::{recover_address, spec_recover_address};

verus! {

/// A Merkle inclusion proof as supplied: a bit-field index and ordered
/// sibling hashes, each a 32-byte hex string.
pub struct InclusionProof {
    pub index: u32,
    pub siblings: Vec<String>,
}

/// One private record: a recoverable signature over the batch digest, a
/// claimed balance, and the inclusion proof binding both to the published
/// root.
pub struct Record {
    pub signature: String,
    pub balance: u64,
    pub inclusion_proof: InclusionProof,
}

/// The public inputs: the digest every signature was produced over and the
/// published Merkle root, both as 32-byte hex strings.
pub struct PublicInputs {
    pub message_digest: String,
    pub merkle_root: String,
}

/// The committed classification: whether the verified total lies in the
/// closed range, and which range was checked.
#[derive(Clone, Copy, Debug, PartialEq, Eq, Structural)]
pub struct RangeResult {
    pub in_range: bool,
    pub min_balance: u64,
    pub max_balance: u64,
}

/// How one record ended: counted into the total, or skipped, with the reason.
#[derive(Clone, Copy, Debug, PartialEq, Eq, Structural)]
pub enum RecordOutcome {
    /// The signer was new and the proof folded to the published root.
    Counted,
    /// The signer's address could not be recovered from the signature.
    SkippedRecoveryFailed,
    /// The address was already counted; a signer contributes at most once.
    SkippedDuplicate,
    /// The proof did not fold to the published root.
    SkippedProofRejected,
}

/// What the aggregator learned from a batch: the verified total and each
/// record's outcome, in batch order.
#[derive(Debug)]
pub struct BatchSummary {
    pub total_balance: u64,
    pub outcomes: Vec<RecordOutcome>,
}

/// A record as the specs see it: the bytes of its signature hex string, the
/// claimed balance, and the proof's index and sibling hex strings' bytes.
pub struct RecordView {
    pub signature: Seq<u8>,
    pub balance: u64,
    pub index: u32,
    pub siblings: Seq<Seq<u8>>,
}

impl View for Record {
    type V = RecordView;

    open spec fn view(&self) -> RecordView {
        RecordView {
            signature: encode_utf8(self.signature@),
            balance: self.balance,
            index: self.inclusion_proof.index,
            siblings: self.inclusion_proof.siblings@.map_values(|s: String| encode_utf8(s@)),
        }
    }
}

/// The records of a batch as the specs see them.
pub open spec fn views_of_records(records: Seq<Record>) -> Seq<RecordView> {
    records.map_values(|r: Record| r@)
}

/// A record's shape is valid when every sibling is well-formed 32-byte hex;
/// anything else is a structural fault that aborts the run.
pub open spec fn spec_siblings_ok(siblings: Seq<Seq<u8>>) -> bool {
    forall|i: int| 0 <= i < siblings.len() ==> spec_parse_32_bytes(#[trigger] siblings[i]) is Some
}

/// The decoded sibling hashes of a well-shaped proof.
pub open spec fn spec_parsed_siblings(siblings: Seq<Seq<u8>>) -> Seq<Seq<u8>> {
    siblings.map_values(|s: Seq<u8>| spec_parse_32_bytes(s)->Some_0)
}

/// A batch is well shaped when every record's proof is.
pub open spec fn spec_batch_ok(records: Seq<RecordView>) -> bool {
    forall|i: int| 0 <= i < records.len() ==> spec_siblings_ok(#[trigger] records[i].siblings)
}

/// The address a record's signature recovers to, where recovery succeeds.
pub open spec fn spec_addr(digest: Seq<u8>, r: RecordView) -> Seq<u8> {
    spec_recover_address(digest, r.signature)->Ok_0
}

/// How one record ends against a set of already-counted addresses: recovery
/// first, then duplicate suppression, then the proof check.
pub open spec fn spec_outcome(
    digest: Seq<u8>,
    root: Seq<u8>,
    seen: Set<Seq<u8>>,
    r: RecordView,
) -> RecordOutcome {
    match spec_recover_address(digest, r.signature) {
        Err(_) => RecordOutcome::SkippedRecoveryFailed,
        Ok(addr) => if seen.contains(addr) {
            RecordOutcome::SkippedDuplicate
        } else if spec_fold(spec_hash_leaf(addr, r.balance), r.index, spec_parsed_siblings(r.siblings))
            == root {
            RecordOutcome::Counted
        } else {
            RecordOutcome::SkippedProofRejected
        },
    }
}

/// The addresses counted after a batch prefix, in order.
pub open spec fn spec_seen(digest: Seq<u8>, root: Seq<u8>, records: Seq<RecordView>) -> Set<
    Seq<u8>,
>
    decreases records.len(),
{
    if records.len() == 0 {
        Set::empty()
    } else {
        let prev = spec_seen(digest, root, records.drop_last());
        if spec_outcome(digest, root, prev, records.last()) is Counted {
            prev.insert(spec_addr(digest, records.last()))
        } else {
            prev
        }
    }
}

/// The sum of the balances of the counted records of a batch, unbounded.
pub open spec fn spec_total(digest: Seq<u8>, root: Seq<u8>, records: Seq<RecordView>) -> nat
    decreases records.len(),
{
    if records.len() == 0 {
        0
    } else {
        spec_total(digest, root, records.drop_last()) + if spec_outcome(
            digest,
            root,
            spec_seen(digest, root, records.drop_last()),
            records.last(),
        ) is Counted {
            records.last().balance as nat
        } else {
            0
        }
    }
}

/// Each record's outcome, in batch order.
pub open spec fn spec_outcomes(digest: Seq<u8>, root: Seq<u8>, records: Seq<RecordView>) -> Seq<
    RecordOutcome,
>
    decreases records.len(),
{
    if records.len() == 0 {
        Seq::empty()
    } else {
        spec_outcomes(digest, root, records.drop_last()).push(
            spec_outcome(
                digest,
                root,
                spec_seen(digest, root, records.drop_last()),
                records.last(),
            ),
        )
    }
}

/// What a whole run yields from the raw inputs: a fatal fault, or the range
/// classification of the verified total. Malformed public hex is rejected
/// before any record is looked at; then the batch's shape; then the total.
pub open spec fn spec_run(
    digest_hex: Seq<u8>,
    root_hex: Seq<u8>,
    records: Seq<RecordView>,
    min_balance: u64,
    max_balance: u64,
) -> Result<RangeResult, FatalError> {
    if spec_parse_32_bytes(digest_hex) is None || spec_parse_32_bytes(root_hex) is None {
        Err(FatalError::MalformedHex)
    } else if !spec_batch_ok(records) {
        Err(FatalError::InvalidProofShape)
    } else {
        let digest = spec_parse_32_bytes(digest_hex)->Some_0;
        let root = spec_parse_32_bytes(root_hex)->Some_0;
        let total = spec_total(digest, root, records);
        if total > u64::MAX {
            Err(FatalError::TotalOverflow)
        } else {
            Ok(
                RangeResult {
                    in_range: min_balance <= total && total <= max_balance,
                    min_balance,
                    max_balance,
                },
            )
        }
    }
}

/// The set of addresses a list of 20-byte entries holds.
pub open spec fn addr_set(seen: Seq<[u8; 20]>) -> Set<Seq<u8>> {
    Set::new(|x: Seq<u8>| exists|i: int| 0 <= i < seen.len() && seen[i]@ == x)
}

proof fn lemma_addr_set_push(seen: Seq<[u8; 20]>, a: [u8; 20])
    ensures
        addr_set(seen.push(a)) == addr_set(seen).insert(a@),
{
    assert forall|x: Seq<u8>| addr_set(seen.push(a)).contains(x) implies addr_set(seen).insert(
        a@,
    ).contains(x) by {
        let i = choose|i: int| 0 <= i < seen.push(a).len() && seen.push(a)[i]@ == x;
        if i < seen.len() {
            assert(seen[i]@ == x);
        } else {
            assert(x == a@);
        }
    };
    assert forall|x: Seq<u8>| addr_set(seen).insert(a@).contains(x) implies addr_set(
        seen.push(a),
    ).contains(x) by {
        if x == a@ {
            assert(seen.push(a)[seen.len() as int]@ == x);
        } else {
            let i = choose|i: int| 0 <= i < seen.len() && seen[i]@ == x;
            assert(seen.push(a)[i]@ == x);
        }
    };
    assert(addr_set(seen.push(a)) =~= addr_set(seen).insert(a@));
}

/// A batch prefix never sums past the whole batch.
pub proof fn lemma_total_monotone(
    digest: Seq<u8>,
    root: Seq<u8>,
    records: Seq<RecordView>,
    i: int,
)
    requires
        0 <= i <= records.len(),
    ensures
        spec_total(digest, root, records.take(i)) <= spec_total(digest, root, records),
    decreases records.len() - i,
{
    if i == records.len() {
        assert(records.take(i) =~= records);
    } else {
        assert(records.take(i + 1).drop_last() =~= records.take(i));
        lemma_total_monotone(digest, root, records, i + 1);
    }
}

fn bytes_eq(a: &[u8], b: &[u8]) -> (r: bool)
    ensures
        r == (a@ == b@),
{
    if a.len() != b.len() {
        return false;
    }
    let mut i: usize = 0;
    while i < a.len()
        invariant
            i <= a@.len(),
            a@.len() == b@.len(),
            forall|j: int| 0 <= j < i ==> a@[j] == b@[j],
        decreases a@.len() - i,
    {
        if a[i] != b[i] {
            return false;
        }
        i = i + 1;
    }
    assert(a@ =~= b@);
    true
}

fn contains_address(seen: &Vec<[u8; 20]>, addr: &[u8; 20]) -> (r: bool)
    ensures
        r == addr_set(seen@).contains(addr@),
{
    let mut i: usize = 0;
    while i < seen.len()
        invariant
            i <= seen@.len(),
            forall|j: int| 0 <= j < i ==> seen@[j]@ != addr@,
        decreases seen@.len() - i,
    {
        if bytes_eq(seen[i].as_slice(), addr.as_slice()) {
            assert(seen@[i as int]@ == addr@);
            return true;
        }
        i = i + 1;
    }
    false
}

/// Aggregate a batch against a digest and expected root: every record's
/// proof must be well shaped (else the run aborts), each record is counted
/// or skipped as its outcome says, and the verified balances are summed with
/// overflow a fatal fault, never wraparound.
#[verifier::rlimit(60)]
pub fn aggregate_batch(digest: &[u8; 32], expected_root: &[u8; 32], records: &Vec<Record>) -> (r:
    Result<BatchSummary, FatalError>)
    ensures
        r is Ok <==> spec_batch_ok(views_of_records(records@)) && spec_total(
            digest@,
            expected_root@,
            views_of_records(records@),
        ) <= u64::MAX,
        r matches Ok(s) ==> s.total_balance == spec_total(
            digest@,
            expected_root@,
            views_of_records(records@),
        ) && s.outcomes@ == spec_outcomes(digest@, expected_root@, views_of_records(records@)),
        !spec_batch_ok(views_of_records(records@)) ==> r == Err::<BatchSummary, FatalError>(
            FatalError::InvalidProofShape,
        ),
        spec_batch_ok(views_of_records(records@)) && spec_total(
            digest@,
            expected_root@,
            views_of_records(records@),
        ) > u64::MAX ==> r == Err::<BatchSummary, FatalError>(FatalError::TotalOverflow),
{
    let ghost v: Seq<RecordView> = views_of_records(records@);
    let mut parsed: Vec<Vec<[u8; 32]>> = Vec::new();
    let mut i: usize = 0;
    while i < records.len()
        invariant
            i <= records@.len(),
            v == views_of_records(records@),
            parsed@.len() == i,
            forall|j: int|
                0 <= j < i ==> spec_siblings_ok(#[trigger] v[j].siblings) && views_of(
                    parsed@[j]@,
                ) == spec_parsed_siblings(v[j].siblings),
        decreases records@.len() - i,
    {
        let rec = &records[i];
        let mut sibs: Vec<[u8; 32]> = Vec::new();
        let mut k: usize = 0;
        while k < rec.inclusion_proof.siblings.len()
            invariant
                k <= rec.inclusion_proof.siblings@.len(),
                rec@ == v[i as int],
                0 <= i < records@.len(),
                v == views_of_records(records@),
                sibs@.len() == k,
                forall|t: int|
                    0 <= t < k ==> spec_parse_32_bytes(#[trigger] v[i as int].siblings[t]) is Some
                        && sibs@[t]@ == spec_parse_32_bytes(v[i as int].siblings[t])->Some_0,
            decreases rec.inclusion_proof.siblings@.len() - k,
        {
            assert(v[i as int].siblings[k as int] == encode_utf8(
                rec.inclusion_proof.siblings@[k as int]@,
            ));
            match parse_32_bytes(rec.inclusion_proof.siblings[k].as_str()) {
                Ok(h) => {
                    sibs.push(h);
                },
                Err(_) => {
                    assert(spec_parse_32_bytes(v[i as int].siblings[k as int]) is None);
                    assert(!spec_siblings_ok(v[i as int].siblings));
                    return Err(FatalError::InvalidProofShape);
                },
            }
            k = k + 1;
        }
        assert(views_of(sibs@) =~= spec_parsed_siblings(v[i as int].siblings));
        parsed.push(sibs);
        i = i + 1;
    }
    assert(spec_batch_ok(v));

    let ghost d: Seq<u8> = digest@;
    let ghost rt: Seq<u8> = expected_root@;
    let mut seen: Vec<[u8; 20]> = Vec::new();
    let mut outcomes: Vec<RecordOutcome> = Vec::new();
    let mut total: u64 = 0;
    let mut n: usize = 0;
    assert(v.take(0) =~= Seq::<RecordView>::empty());
    assert(addr_set(seen@) =~= spec_seen(d, rt, v.take(0)));
    while n < records.len()
        invariant
            n <= records@.len(),
            v == views_of_records(records@),
            d == digest@,
            rt == expected_root@,
            parsed@.len() == records@.len(),
            spec_batch_ok(v),
            forall|j: int|
                0 <= j < records@.len() ==> views_of(#[trigger] parsed@[j]@) == spec_parsed_siblings(
                    v[j].siblings,
                ),
            addr_set(seen@) == spec_seen(d, rt, v.take(n as int)),
            total as nat == spec_total(d, rt, v.take(n as int)),
            outcomes@ == spec_outcomes(d, rt, v.take(n as int)),
        decreases records@.len() - n,
    {
        let ghost prefix = v.take(n as int);
        let ghost prefix1 = v.take(n as int + 1);
        proof {
            assert(prefix1.drop_last() =~= prefix);
            assert(prefix1.last() == v[n as int]);
        }
        let rec = &records[n];
        assert(rec@ == v[n as int]);
        let outcome: RecordOutcome;
        match recover_address(digest, rec.signature.as_str()) {
            Err(_) => {
                outcome = RecordOutcome::SkippedRecoveryFailed;
            },
            Ok(addr) => {
                if contains_address(&seen, &addr) {
                    outcome = RecordOutcome::SkippedDuplicate;
                } else {
                    let leaf = hash_leaf(&addr, rec.balance);
                    let candidate = compute_inclusion_root(
                        &leaf,
                        rec.inclusion_proof.index,
                        &parsed[n],
                    );
                    if bytes_eq(candidate.as_slice(), expected_root.as_slice()) {
                        if rec.balance > u64::MAX - total {
                            proof {
                                lemma_total_monotone(d, rt, v, n as int + 1);
                            }
                            return Err(FatalError::TotalOverflow);
                        }
                        total = total + rec.balance;
                        proof {
                            lemma_addr_set_push(seen@, addr);
                        }
                        seen.push(addr);
                        outcome = RecordOutcome::Counted;
                    } else {
                        outcome = RecordOutcome::SkippedProofRejected;
                    }
                }
            },
        }
        outcomes.push(outcome);
        n = n + 1;
    }
    assert(v.take(records@.len() as int) =~= v);
    Ok(BatchSummary { total_balance: total, outcomes })
}

/// Classify a verified total against the closed range [min, max].
pub fn check_balance_range(total: u64, min_balance: u64, max_balance: u64) -> (r: RangeResult)
    ensures
        r == (RangeResult {
            in_range: min_balance <= total && total <= max_balance,
            min_balance,
            max_balance,
        }),
{
    RangeResult { in_range: min_balance <= total && total <= max_balance, min_balance, max_balance }
}

/// Run a whole verification: parse the public digest and root (malformed hex
/// aborts before any record is processed), aggregate the batch, and classify
/// the total against the given range.
pub fn verify_token_ownership(
    public: &PublicInputs,
    records: &Vec<Record>,
    min_balance: u64,
    max_balance: u64,
) -> (r: Result<RangeResult, FatalError>)
    ensures
        r == spec_run(
            encode_utf8(public.message_digest@),
            encode_utf8(public.merkle_root@),
            views_of_records(records@),
            min_balance,
            max_balance,
        ),
{
    let digest = match parse_32_bytes(public.message_digest.as_str()) {
        Ok(d) => d,
        Err(e) => {
            return Err(e);
        },
    };
    let root = match parse_32_bytes(public.merkle_root.as_str()) {
        Ok(rt) => rt,
        Err(e) => {
            return Err(e);
        },
    };
    let summary = match aggregate_batch(&digest, &root, records) {
        Ok(s) => s,
        Err(e) => {
            return Err(e);
        },
    };
    Ok(check_balance_range(summary.total_balance, min_balance, max_balance))
}

/// Law: a run is deterministic — two results of the same inputs are the same
/// committed output, byte for byte.
pub proof fn lemma_run_deterministic(
    digest_hex: Seq<u8>,
    root_hex: Seq<u8>,
    records: Seq<RecordView>,
    min_balance: u64,
    max_balance: u64,
    r1: Result<RangeResult, FatalError>,
    r2: Result<RangeResult, FatalError>,
)
    requires
        r1 == spec_run(digest_hex, root_hex, records, min_balance, max_balance),
        r2 == spec_run(digest_hex, root_hex, records, min_balance, max_balance),
    ensures
        r1 == r2,
{
}

/// Law: duplicate suppression — of two records recovering to the same
/// address, only the first-encountered one is counted, whatever balance the
/// second claims, and the total of both equals the total of the first alone.
pub proof fn lemma_duplicate_suppression(
    digest: Seq<u8>,
    root: Seq<u8>,
    r1: RecordView,
    r2: RecordView,
)
    requires
        spec_outcome(digest, root, Set::empty(), r1) is Counted,
        spec_recover_address(digest, r2.signature) == spec_recover_address(digest, r1.signature),
    ensures
        spec_outcomes(digest, root, seq![r1, r2]) =~= seq![
            RecordOutcome::Counted,
            RecordOutcome::SkippedDuplicate,
        ],
        spec_total(digest, root, seq![r1, r2]) == spec_total(digest, root, seq![r1]),
{
    let s1 = seq![r1];
    let s2 = seq![r1, r2];
    assert(s1.drop_last() =~= Seq::<RecordView>::empty());
    assert(s1.last() == r1);
    assert(s2.drop_last() =~= s1);
    assert(s2.last() == r2);
    assert(spec_seen(digest, root, Seq::<RecordView>::empty()) == Set::<Seq<u8>>::empty());
    assert(spec_outcome(digest, root, Set::empty(), r1) is Counted);
    assert(spec_seen(digest, root, s1) == Set::<Seq<u8>>::empty().insert(spec_addr(digest, r1)));
    assert(spec_addr(digest, r2) == spec_addr(digest, r1));
    assert(spec_seen(digest, root, s1).contains(spec_addr(digest, r2)));
    assert(spec_recover_address(digest, r2.signature) is Ok);
    assert(spec_outcome(digest, root, spec_seen(digest, root, s1), r2)
        == RecordOutcome::SkippedDuplicate);
    assert(spec_outcomes(digest, root, Seq::<RecordView>::empty())
        =~= Seq::<RecordOutcome>::empty());
    assert(spec_outcomes(digest, root, s1) =~= seq![RecordOutcome::Counted]);
}

/// Law: recoverable-failure isolation — a record whose signature does not
/// recover contributes nothing: appended to any batch it leaves the total
/// and the counted addresses unchanged, and the run does not abort on it.
pub proof fn lemma_failed_recovery_isolated(
    digest: Seq<u8>,
    root: Seq<u8>,
    records: Seq<RecordView>,
    r: RecordView,
)
    requires
        spec_recover_address(digest, r.signature) is Err,
    ensures
        spec_total(digest, root, records.push(r)) == spec_total(digest, root, records),
        spec_seen(digest, root, records.push(r)) == spec_seen(digest, root, records),
        spec_outcomes(digest, root, records.push(r)) =~= spec_outcomes(
            digest,
            root,
            records,
        ).push(RecordOutcome::SkippedRecoveryFailed),
{
    assert(records.push(r).drop_last() =~= records);
    assert(records.push(r).last() == r);
}

} // verus!
