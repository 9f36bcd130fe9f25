use hihi::error::HihiError;
use hihi::instruction::{Breach, Claim, HihiInstruction, Initialize};

#[test]
fn unpack_initialize() {
    let buf = vec![0u8, 42u8];
    let r = HihiInstruction::unpack(&buf).unwrap();
    assert_eq!(r, HihiInstruction::Initialize(Initialize { nonce: 42 }));
}

#[test]
fn unpack_breach() {
    let mut buf = vec![1u8];
    buf.extend_from_slice(&123456789u64.to_le_bytes());
    let r = HihiInstruction::unpack(&buf).unwrap();
    assert_eq!(r, HihiInstruction::Breach(Breach { lamports: 123456789 }));
}

#[test]
fn unpack_breach_short_payload() {
    let buf = vec![1u8, 1, 2, 3];
    assert_eq!(HihiInstruction::unpack(&buf), Err(HihiError::InvalidInstruction));
}

#[test]
fn unpack_limit_break_withdraw_change_keys() {
    assert_eq!(HihiInstruction::unpack(&[2u8]).unwrap(), HihiInstruction::LimitBreak);
    assert_eq!(HihiInstruction::unpack(&[4u8]).unwrap(), HihiInstruction::Withdraw);
    assert_eq!(HihiInstruction::unpack(&[5u8]).unwrap(), HihiInstruction::ChangeKeys);
}

#[test]
fn unpack_claim() {
    let mut work = [0u8; 57];
    for (i, b) in work.iter_mut().enumerate() {
        *b = i as u8;
    }
    let mut buf = vec![3u8];
    buf.extend_from_slice(&work);
    let r = HihiInstruction::unpack(&buf).unwrap();
    assert_eq!(r, HihiInstruction::Claim(Claim { work }));
}

#[test]
fn unpack_claim_short_payload() {
    let buf = vec![3u8; 20];
    assert_eq!(HihiInstruction::unpack(&buf), Err(HihiError::InvalidInstruction));
}

#[test]
fn unpack_empty_input() {
    let buf: Vec<u8> = Vec::new();
    assert_eq!(HihiInstruction::unpack(&buf), Err(HihiError::InvalidInstruction));
}

#[test]
fn unpack_unknown_tag() {
    assert_eq!(HihiInstruction::unpack(&[9u8]), Err(HihiError::DeserializationFailure));
}

#[test]
fn pack_unpack_round_trip_all_variants() {
    let mut work = [7u8; 57];
    work[0] = 1;
    let cases = vec![
        HihiInstruction::Initialize(Initialize { nonce: 7 }),
        HihiInstruction::Breach(Breach { lamports: u64::MAX }),
        HihiInstruction::LimitBreak,
        HihiInstruction::Claim(Claim { work }),
        HihiInstruction::Withdraw,
        HihiInstruction::ChangeKeys,
    ];
    for case in cases {
        let packed = case.pack();
        let back = HihiInstruction::unpack(&packed).unwrap();
        assert_eq!(back, case);
    }
}

#[test]
fn error_codes_follow_declaration_order() {
    assert_eq!(HihiError::InvalidInstruction.code(), 0);
    assert_eq!(HihiError::WorkLimitExceeded.code(), 5);
    assert_eq!(HihiError::InsufficientFundsForTransaction.code(), 12);
    assert_eq!(HihiError::UnknownError.code(), 13);
}

#[test]
fn error_messages() {
    assert_eq!(HihiError::InvalidOwner.message(), "Invalid owner");
    assert_eq!(HihiError::NotRentExempt.message(), "Account must be rent exempt");
    assert_eq!(
        HihiError::InsufficientFundsForTransaction.message(),
        "Not enough funds to process transaction"
    );
}

#[test]
fn unpack_u64_and_work_helpers() {
    let mut buf = 99u64.to_le_bytes().to_vec();
    buf.push(7);
    let (v, rest) = HihiInstruction::unpack_u64(&buf).unwrap();
    assert_eq!(v, 99);
    assert_eq!(rest, &[7u8]);
    let work_bytes = [5u8; 58];
    let (w, rest) = HihiInstruction::unpack_work(&work_bytes).unwrap();
    assert_eq!(w, [5u8; 57]);
    assert_eq!(rest, &[5u8]);
    assert_eq!(
        HihiInstruction::unpack_u64(&[1u8, 2]).unwrap_err(),
        HihiError::InvalidInstruction
    );
    assert_eq!(
        HihiInstruction::unpack_work(&[1u8, 2]).unwrap_err(),
        HihiError::InvalidInstruction
    );
}
