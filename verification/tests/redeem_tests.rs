use redemption::address::ReceivingAddress;
use redemption::amount::NativeCurrencyAmount;
use redemption::announcement::encode_address;
use redemption::announcement::encode_triple;
use redemption::announcement::PublicAnnouncement;
use redemption::announcement::Utxo;
use redemption::announcement::UtxoTriple;
use redemption::bound::absolute_index_set_to_aocl_leaf_index_lower_bound;
use redemption::bound::AbsoluteIndexSet;
use redemption::bound::ALLOWABLE_AOCL_INDEX_LOWER_BOUND;
use redemption::bound::NUM_UTXOS_IN_PREMINE;
use redemption::claim::AdditionRecord;
use redemption::claim::ClaimKernel;
use redemption::claim::LoadedClaim;
use redemption::claim::RedemptionClaim;
use redemption::claim::RedemptionInput;
use redemption::claim::RemovalRecord;
use redemption::digest::Digest;
use redemption::redeem::RedeemError;
use redemption::redeem::Redeemer;
use redemption::timestamp::Timestamp;
use redemption::validate::RedemptionValidationError;

fn address_from_words(words: [u64; 5]) -> ReceivingAddress {
    ReceivingAddress::new(Digest::new(words))
}

fn uniform_set(value: u128) -> AbsoluteIndexSet {
    AbsoluteIndexSet::new(&[value; 45])
}

fn redeemer() -> Redeemer {
    Redeemer::new(false, false, true, address_from_words([11, 12, 13, 14, 15]))
}

#[test]
fn num_utxos_in_premine_agrees_with_const() {
    assert_eq!(NUM_UTXOS_IN_PREMINE, 80);
    assert_eq!(NUM_UTXOS_IN_PREMINE as u64, ALLOWABLE_AOCL_INDEX_LOWER_BOUND);
}

#[test]
fn lower_bound_exact_values() {
    // All indices at the filter's origin: the bound saturates at one.
    assert_eq!(absolute_index_set_to_aocl_leaf_index_lower_bound(&uniform_set(0)), 1);
    // A maximal index exactly one window in still saturates.
    assert_eq!(
        absolute_index_set_to_aocl_leaf_index_lower_bound(&uniform_set(1048576)),
        1
    );
    // One index past the window: round up to the next chunk, back off one
    // window, one chunk of eight leaves, plus one.
    assert_eq!(
        absolute_index_set_to_aocl_leaf_index_lower_bound(&uniform_set(1048577)),
        9
    );
}

#[test]
fn premine_guard_boundaries() {
    // Indices from the window of a premine coin (insertion index 72)
    // never clear the threshold, even at the window's far end.
    let premine_worst = uniform_set(9 * 4096 + 1048575);
    assert!(
        absolute_index_set_to_aocl_leaf_index_lower_bound(&premine_worst)
            < ALLOWABLE_AOCL_INDEX_LOWER_BOUND
    );
    // Indices from the window of a coin a full window past the threshold
    // clear it even at the window's near end.
    let late_best = uniform_set(266 * 4096);
    assert!(
        absolute_index_set_to_aocl_leaf_index_lower_bound(&late_best)
            >= ALLOWABLE_AOCL_INDEX_LOWER_BOUND
    );
}

#[test]
fn can_proceed_checks_configuration() {
    let dest = address_from_words([1, 1, 1, 1, 1]);
    let disabled = Redeemer::new(true, false, true, dest);
    assert!(matches!(
        disabled.can_proceed(),
        Err(RedeemError::TransactionInitiationDisabled)
    ));
    let weak = Redeemer::new(false, false, false, dest);
    assert!(matches!(weak.can_proceed(), Err(RedeemError::ProverCapabilityTooWeak)));
    let mock = Redeemer::new(false, true, false, dest);
    assert!(mock.can_proceed().is_ok());
    let capable = Redeemer::new(false, false, true, dest);
    assert!(capable.can_proceed().is_ok());
}

fn seventy_four_liquid_twenty_six_locked() -> Vec<RedemptionInput> {
    vec![
        RedemptionInput {
            amount: NativeCurrencyAmount::coins(74),
            release_date: None,
            absolute_indices: uniform_set(1089536),
        },
        RedemptionInput {
            amount: NativeCurrencyAmount::coins(26),
            release_date: Some(Timestamp::new(34560000000)),
            absolute_indices: uniform_set(1089544),
        },
    ]
}

#[test]
fn assemble_sweeps_batch_into_two_outputs() {
    let redeemer = redeemer();
    let dest = address_from_words([21, 22, 23, 24, 25]);
    let inputs = seventy_four_liquid_twenty_six_locked();
    let details = redeemer
        .assemble_data(&inputs, Some(dest), Timestamp::new(1000), None)
        .unwrap();
    assert_eq!(details.len(), 1);
    let claim = &details[0];
    assert_eq!(claim.inputs.len(), 2);
    assert_eq!(claim.fee, NativeCurrencyAmount::coins(0));
    assert_eq!(claim.outputs.len(), 2);
    assert_eq!(claim.outputs[0].utxo.amount, NativeCurrencyAmount::coins(74));
    assert_eq!(claim.outputs[0].utxo.release_date, None);
    assert_eq!(claim.outputs[1].utxo.amount, NativeCurrencyAmount::coins(26));
    assert_eq!(claim.outputs[1].utxo.release_date, Some(Timestamp::new(34560000000)));
    assert!(claim.outputs[0].utxo.lock_script_hash == dest.spending_lock);
    // One announcement per output, then exactly one address announcement.
    assert_eq!(claim.public_announcements.len(), 3);
}

#[test]
fn assemble_excludes_premine_suspects_and_chunks() {
    let redeemer = redeemer();
    let mut inputs = seventy_four_liquid_twenty_six_locked();
    inputs.push(RedemptionInput {
        amount: NativeCurrencyAmount::coins(9),
        release_date: None,
        absolute_indices: uniform_set(0),
    });
    let details = redeemer
        .assemble_data(&inputs, None, Timestamp::new(1000), Some(1))
        .unwrap();
    // The premine suspect is silently excluded; batch size one makes one
    // claim per remaining input.
    assert_eq!(details.len(), 2);
    assert_eq!(details[0].inputs.len(), 1);
    assert_eq!(details[0].outputs.len(), 1);
    assert_eq!(details[0].outputs[0].utxo.amount, NativeCurrencyAmount::coins(74));
    assert_eq!(details[1].outputs.len(), 2);
}

fn loaded_claim_from_inputs(
    name: &str,
    inputs: Vec<RedemptionInput>,
    dest: ReceivingAddress,
    accumulator_hash: Digest,
) -> LoadedClaim {
    let redeemer = redeemer();
    let details = redeemer
        .assemble_data(&inputs, Some(dest), Timestamp::new(1000), None)
        .unwrap();
    assert_eq!(details.len(), 1);
    let kernel = details[0].to_claim_kernel(accumulator_hash);
    LoadedClaim { name: name.to_string(), claim: RedemptionClaim { kernel } }
}

#[test]
fn validate_accepts_full_redemption_scenario() {
    // 74 coins liquid and 26 coins locked until day 400 redeem to one
    // liquid and one time-locked output; validation against an
    // accumulator that can remove both inputs yields two report entries
    // for the destination.
    let dest = address_from_words([21, 22, 23, 24, 25]);
    let accumulator_hash = Digest::new([5, 4, 3, 2, 1]);
    let claim = loaded_claim_from_inputs(
        "claim-0",
        seventy_four_liquid_twenty_six_locked(),
        dest,
        accumulator_hash,
    );
    let report = Redeemer::validate_redemption(
        &vec![claim],
        &vec![true],
        accumulator_hash,
        &vec![true, true],
    )
    .unwrap();
    let rows = report.rows();
    assert_eq!(rows.len(), 2);
    assert_eq!(rows[0].amount, NativeCurrencyAmount::coins(74));
    assert_eq!(rows[0].earliest_release_date, None);
    assert!(rows[0].address == dest);
    assert_eq!(rows[1].amount, NativeCurrencyAmount::coins(26));
    assert_eq!(rows[1].earliest_release_date, Some(Timestamp::new(34560000000)));
    assert!(rows[1].address == dest);
}

#[test]
fn validate_rejects_unsynced_claim() {
    // A claim recording a different accumulator digest fails with the
    // unsynced-claims error even though every other stage would pass.
    let dest = address_from_words([21, 22, 23, 24, 25]);
    let recorded = Digest::new([5, 4, 3, 2, 1]);
    let current = Digest::new([6, 6, 6, 6, 6]);
    let claim = loaded_claim_from_inputs(
        "claim-0",
        seventy_four_liquid_twenty_six_locked(),
        dest,
        recorded,
    );
    let result = Redeemer::validate_redemption(
        &vec![claim],
        &vec![true],
        current,
        &vec![true, true],
    );
    match result {
        Err(RedemptionValidationError::UnsyncedClaims(names)) => {
            assert_eq!(names, vec!["claim-0".to_string()]);
        },
        _ => panic!("expected the unsynced-claims error"),
    }
}

#[test]
fn validate_rejects_invalid_claims_collecting_all() {
    let dest = address_from_words([21, 22, 23, 24, 25]);
    let accumulator_hash = Digest::new([5, 4, 3, 2, 1]);
    let first = loaded_claim_from_inputs(
        "claim-a",
        vec![RedemptionInput {
            amount: NativeCurrencyAmount::coins(5),
            release_date: None,
            absolute_indices: uniform_set(1089536),
        }],
        dest,
        accumulator_hash,
    );
    let second = loaded_claim_from_inputs(
        "claim-b",
        vec![RedemptionInput {
            amount: NativeCurrencyAmount::coins(6),
            release_date: None,
            absolute_indices: uniform_set(1089544),
        }],
        dest,
        accumulator_hash,
    );
    let result = Redeemer::validate_redemption(
        &vec![first, second],
        &vec![false, false],
        accumulator_hash,
        &vec![true, true],
    );
    match result {
        Err(RedemptionValidationError::InvalidClaims(names)) => {
            assert_eq!(names, vec!["claim-a".to_string(), "claim-b".to_string()]);
        },
        _ => panic!("expected the invalid-claims error"),
    }
}

#[test]
fn validate_rejects_duplicate_index_sets_across_claims() {
    // Two otherwise-valid claims spending the same coin always abort
    // with the double-spend error; neither is silently dropped.
    let dest = address_from_words([21, 22, 23, 24, 25]);
    let accumulator_hash = Digest::new([5, 4, 3, 2, 1]);
    let shared = vec![RedemptionInput {
        amount: NativeCurrencyAmount::coins(5),
        release_date: None,
        absolute_indices: uniform_set(1089536),
    }];
    let first = loaded_claim_from_inputs("claim-a", shared.clone(), dest, accumulator_hash);
    let second = loaded_claim_from_inputs("claim-b", shared, dest, accumulator_hash);
    let result = Redeemer::validate_redemption(
        &vec![first, second],
        &vec![true, true],
        accumulator_hash,
        &vec![true, true],
    );
    assert!(matches!(
        result,
        Err(RedemptionValidationError::MutuallyIncompatibleClaims)
    ));
}

#[test]
fn validate_rejects_premine_claim_with_bound() {
    let dest = address_from_words([21, 22, 23, 24, 25]);
    let accumulator_hash = Digest::new([5, 4, 3, 2, 1]);
    // Assembly would filter this input out, so build the kernel by hand.
    let kernel = ClaimKernel {
        inputs: vec![RemovalRecord { absolute_indices: uniform_set(0) }],
        outputs: vec![],
        public_announcements: vec![encode_address(&dest)],
        mutator_set_hash: accumulator_hash,
    };
    let claim = LoadedClaim {
        name: "claim-0".to_string(),
        claim: RedemptionClaim { kernel },
    };
    let result = Redeemer::validate_redemption(
        &vec![claim],
        &vec![true],
        accumulator_hash,
        &vec![true],
    );
    match result {
        Err(RedemptionValidationError::PotentialPremineClaim(bound)) => {
            assert_eq!(bound, 1);
        },
        _ => panic!("expected the premine error"),
    }
}

#[test]
fn validate_rejects_nonremovable_record() {
    let dest = address_from_words([21, 22, 23, 24, 25]);
    let accumulator_hash = Digest::new([5, 4, 3, 2, 1]);
    let claim = loaded_claim_from_inputs(
        "claim-0",
        seventy_four_liquid_twenty_six_locked(),
        dest,
        accumulator_hash,
    );
    let result = Redeemer::validate_redemption(
        &vec![claim],
        &vec![true],
        accumulator_hash,
        &vec![true, false],
    );
    match result {
        Err(RedemptionValidationError::InvalidRemovalRecord(set)) => {
            assert_eq!(set, uniform_set(1089544));
        },
        _ => panic!("expected the invalid-removal-record error"),
    }
}

#[test]
fn validate_rejects_unparsable_announcement() {
    let accumulator_hash = Digest::new([5, 4, 3, 2, 1]);
    let kernel = ClaimKernel {
        inputs: vec![RemovalRecord { absolute_indices: uniform_set(1089536) }],
        outputs: vec![],
        public_announcements: vec![PublicAnnouncement { message: vec![1, 2, 3] }],
        mutator_set_hash: accumulator_hash,
    };
    let claim = LoadedClaim {
        name: "claim-0".to_string(),
        claim: RedemptionClaim { kernel },
    };
    let result = Redeemer::validate_redemption(
        &vec![claim],
        &vec![true],
        accumulator_hash,
        &vec![true],
    );
    match result {
        Err(RedemptionValidationError::UnparsablePublicAnnouncement(name, position)) => {
            assert_eq!(name, "claim-0".to_string());
            assert_eq!(position, 0);
        },
        _ => panic!("expected the unparsable-announcement error"),
    }
}

#[test]
fn validate_rejects_undeclared_output() {
    let dest = address_from_words([21, 22, 23, 24, 25]);
    let accumulator_hash = Digest::new([5, 4, 3, 2, 1]);
    let triple = UtxoTriple {
        utxo: Utxo {
            lock_script_hash: dest.spending_lock,
            amount: NativeCurrencyAmount::coins(5),
            release_date: None,
        },
        sender_randomness: Digest::new([1, 0, 0, 0, 0]),
        receiver_privacy_digest: Digest::new([2, 0, 0, 0, 0]),
    };
    // The announced output's commitment is missing from the outputs.
    let kernel = ClaimKernel {
        inputs: vec![RemovalRecord { absolute_indices: uniform_set(1089536) }],
        outputs: vec![],
        public_announcements: vec![encode_triple(&triple), encode_address(&dest)],
        mutator_set_hash: accumulator_hash,
    };
    let claim = LoadedClaim {
        name: "claim-0".to_string(),
        claim: RedemptionClaim { kernel },
    };
    let result = Redeemer::validate_redemption(
        &vec![claim],
        &vec![true],
        accumulator_hash,
        &vec![true],
    );
    match result {
        Err(RedemptionValidationError::UtxoNotOutput(name, position)) => {
            assert_eq!(name, "claim-0".to_string());
            assert_eq!(position, 0);
        },
        _ => panic!("expected the undeclared-output error"),
    }
}

#[test]
fn validate_rejects_missing_destination() {
    let dest = address_from_words([21, 22, 23, 24, 25]);
    let accumulator_hash = Digest::new([5, 4, 3, 2, 1]);
    let triple = UtxoTriple {
        utxo: Utxo {
            lock_script_hash: dest.spending_lock,
            amount: NativeCurrencyAmount::coins(5),
            release_date: None,
        },
        sender_randomness: Digest::new([1, 0, 0, 0, 0]),
        receiver_privacy_digest: Digest::new([2, 0, 0, 0, 0]),
    };
    let kernel = ClaimKernel {
        inputs: vec![RemovalRecord { absolute_indices: uniform_set(1089536) }],
        outputs: vec![AdditionRecord { canonical_commitment: triple.addition_record() }],
        public_announcements: vec![encode_triple(&triple)],
        mutator_set_hash: accumulator_hash,
    };
    let claim = LoadedClaim {
        name: "claim-0".to_string(),
        claim: RedemptionClaim { kernel },
    };
    let result = Redeemer::validate_redemption(
        &vec![claim],
        &vec![true],
        accumulator_hash,
        &vec![true],
    );
    assert!(matches!(
        result,
        Err(RedemptionValidationError::MissingDestinationAddress)
    ));
}

#[test]
fn last_address_announcement_wins() {
    // Multiple address announcements are tolerated; the last one decides
    // the destination.
    let first_dest = address_from_words([1, 1, 1, 1, 1]);
    let last_dest = address_from_words([2, 2, 2, 2, 2]);
    let accumulator_hash = Digest::new([5, 4, 3, 2, 1]);
    let triple = UtxoTriple {
        utxo: Utxo {
            lock_script_hash: last_dest.spending_lock,
            amount: NativeCurrencyAmount::coins(5),
            release_date: None,
        },
        sender_randomness: Digest::new([1, 0, 0, 0, 0]),
        receiver_privacy_digest: Digest::new([2, 0, 0, 0, 0]),
    };
    let kernel = ClaimKernel {
        inputs: vec![RemovalRecord { absolute_indices: uniform_set(1089536) }],
        outputs: vec![AdditionRecord { canonical_commitment: triple.addition_record() }],
        public_announcements: vec![
            encode_address(&first_dest),
            encode_triple(&triple),
            encode_address(&last_dest),
        ],
        mutator_set_hash: accumulator_hash,
    };
    let claim = LoadedClaim {
        name: "claim-0".to_string(),
        claim: RedemptionClaim { kernel },
    };
    let report = Redeemer::validate_redemption(
        &vec![claim],
        &vec![true],
        accumulator_hash,
        &vec![true],
    )
    .unwrap();
    assert_eq!(report.rows().len(), 1);
    assert!(report.rows()[0].address == last_dest);
}

#[test]
fn assemble_of_nothing_yields_no_claims() {
    let redeemer = redeemer();
    let details = redeemer
        .assemble_data(&vec![], None, Timestamp::new(0), None)
        .unwrap();
    assert_eq!(details.len(), 0);
}

#[test]
fn all_timelocked_batch_still_has_liquid_output() {
    // The liquid output is always present, even at amount zero; the
    // downstream builder, not assembly, decides any suppression.
    let redeemer = redeemer();
    let inputs = vec![RedemptionInput {
        amount: NativeCurrencyAmount::coins(26),
        release_date: Some(Timestamp::new(34560000000)),
        absolute_indices: uniform_set(1089536),
    }];
    let details = redeemer
        .assemble_data(&inputs, None, Timestamp::new(1000), None)
        .unwrap();
    assert_eq!(details.len(), 1);
    assert_eq!(details[0].outputs.len(), 2);
    assert_eq!(details[0].outputs[0].utxo.amount, NativeCurrencyAmount::coins(0));
    assert_eq!(details[0].outputs[0].utxo.release_date, None);
    assert_eq!(details[0].outputs[1].utxo.amount, NativeCurrencyAmount::coins(26));
}

#[test]
fn validate_of_no_claims_yields_empty_report() {
    let report = Redeemer::validate_redemption(
        &vec![],
        &vec![],
        Digest::new([0, 0, 0, 0, 0]),
        &vec![],
    )
    .unwrap();
    assert_eq!(report.rows().len(), 0);
}
