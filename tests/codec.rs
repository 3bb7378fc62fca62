use escrow_delegation::codec::{
    decode_seed_list, deserialize_delegate_ix_data, deserialize_undelegate_ix_data,
    encode_delegate_ix_data, keys_equal, parse_delegate_config, read_u32_le, read_u64_le,
    serialize_delegate_account_args, DelegateAccountArgs, DelegateConfig,
};
use escrow_delegation::error::{MyProgramError, ProgramError};
use escrow_delegation::state::{EscrowState, ESCROW_LEN};

#[test]
fn error_codes_follow_declaration_order() {
    assert_eq!(MyProgramError::DeserializationFailed.code(), 0);
    assert_eq!(MyProgramError::WriteOverflow.code(), 1);
    assert_eq!(MyProgramError::InvalidInstructionData.code(), 2);
    assert_eq!(MyProgramError::PdaMismatch.code(), 3);
    assert_eq!(MyProgramError::InvalidOwner.code(), 4);
    assert_eq!(MyProgramError::AccountEmpty.code(), 5);
    assert_eq!(MyProgramError::SerializationFailed.code(), 6);
    assert_eq!(
        ProgramError::from(MyProgramError::PdaMismatch),
        ProgramError::Custom(MyProgramError::PdaMismatch)
    );
}

#[test]
fn little_endian_reads() {
    let d = [0x78u8, 0x56, 0x34, 0x12, 0xff, 0, 0, 0, 0, 0];
    assert_eq!(read_u32_le(&d, 0), 0x1234_5678);
    assert_eq!(read_u64_le(&d, 0), 0xff_1234_5678);
    assert_eq!(read_u64_le(&[0xffu8; 8], 0), u64::MAX);
}

#[test]
fn keys_compare_bytewise() {
    let a = [7u8; 32];
    let mut b = [7u8; 32];
    assert!(keys_equal(&a, &b));
    b[31] = 8;
    assert!(!keys_equal(&a, &b));
}

#[test]
fn config_too_short_fails_with_serialization_error() {
    assert_eq!(
        parse_delegate_config(&[1, 2, 3]),
        Err(ProgramError::Custom(MyProgramError::SerializationFailed))
    );
    assert_eq!(
        parse_delegate_config(&[]),
        Err(ProgramError::Custom(MyProgramError::SerializationFailed))
    );
}

#[test]
fn config_without_validator() {
    let c = parse_delegate_config(&[0x10, 0x27, 0, 0, 9, 9]).unwrap();
    assert_eq!(c, DelegateConfig { commit_frequency_ms: 10_000, validator: None });
}

#[test]
fn config_with_validator() {
    let mut d = vec![1u8, 0, 0, 0];
    d.extend_from_slice(&[5u8; 32]);
    let c = parse_delegate_config(&d).unwrap();
    assert_eq!(c, DelegateConfig { commit_frequency_ms: 1, validator: Some([5u8; 32]) });
    d.truncate(35);
    assert_eq!(parse_delegate_config(&d).unwrap().validator, None);
}

#[test]
fn seed_list_decodes_in_order() {
    let d = [2u8, 3, b'a', b'b', b'c', 0, 0xaa, 0xbb];
    let (seeds, off) = decode_seed_list(&d).unwrap();
    assert_eq!(seeds, vec![b"abc".to_vec(), vec![]]);
    assert_eq!(off, 6);
}

#[test]
fn seed_list_empty_input_and_truncation_fail() {
    assert_eq!(decode_seed_list(&[]), Err(ProgramError::InvalidInstructionData));
    assert_eq!(decode_seed_list(&[1]), Err(ProgramError::InvalidInstructionData));
    assert_eq!(decode_seed_list(&[1, 4, 1, 2, 3]), Err(ProgramError::InvalidInstructionData));
    assert_eq!(decode_seed_list(&[0]), Ok((vec![], 1)));
}

#[test]
fn delegate_payload_round_trip() {
    let seeds = vec![b"escrow".to_vec(), vec![9u8; 32], vec![]];
    for config in [
        DelegateConfig { commit_frequency_ms: 30_000, validator: None },
        DelegateConfig { commit_frequency_ms: u32::MAX, validator: Some([3u8; 32]) },
    ] {
        let bytes = encode_delegate_ix_data(&seeds, &config);
        assert_eq!(deserialize_delegate_ix_data(&bytes), Ok((seeds.clone(), config)));
        for k in 0..(1 + 1 + 6 + 1 + 32 + 1) {
            assert_eq!(
                deserialize_delegate_ix_data(&bytes[..k]),
                Err(ProgramError::InvalidInstructionData)
            );
        }
    }
}

#[test]
fn delegate_payload_exact_bytes() {
    let seeds = vec![vec![1u8, 2]];
    let config = DelegateConfig { commit_frequency_ms: 0x0102_0304, validator: None };
    assert_eq!(encode_delegate_ix_data(&seeds, &config), vec![1, 2, 1, 2, 4, 3, 2, 1]);
}

#[test]
fn delegate_payload_without_settings_fails() {
    assert_eq!(
        deserialize_delegate_ix_data(&[1, 1, 7, 0, 0]),
        Err(ProgramError::Custom(MyProgramError::SerializationFailed))
    );
}

#[test]
fn undelegate_payload_reads_seeds() {
    assert_eq!(deserialize_undelegate_ix_data(&[1, 2, 7, 8, 0xff]), Ok(vec![vec![7u8, 8]]));
    assert_eq!(deserialize_undelegate_ix_data(&[2, 0]), Err(ProgramError::InvalidInstructionData));
}

#[test]
fn delegate_args_wire_layout() {
    let args = DelegateAccountArgs {
        commit_frequency_ms: 1000,
        seeds: vec![b"ab".to_vec(), vec![]],
        validator: None,
    };
    assert_eq!(
        serialize_delegate_account_args(&args),
        vec![0xe8, 3, 0, 0, 2, 2, 0, 0, 0, b'a', b'b', 0, 0, 0, 0]
    );
    let with_validator = DelegateAccountArgs { validator: Some([4u8; 32]), ..args };
    let out = serialize_delegate_account_args(&with_validator);
    assert_eq!(out.len(), 15 + 32);
    assert_eq!(&out[15..], &[4u8; 32]);
}

#[test]
fn escrow_record_layout() {
    let s = EscrowState {
        maker: [1u8; 32],
        mint_x: [2u8; 32],
        mint_y: [3u8; 32],
        amount: 200u64.to_le_bytes(),
        bump: 254,
    };
    let b = s.to_bytes();
    assert_eq!(b.len(), ESCROW_LEN);
    assert_eq!(b.len(), 105);
    assert_eq!(&b[0..32], &[1u8; 32]);
    assert_eq!(&b[64..96], &[3u8; 32]);
    assert_eq!(&b[96..104], &200u64.to_le_bytes());
    assert_eq!(b[104], 254);
    assert_eq!(EscrowState::from_bytes(&b), Ok(s));
    assert_eq!(EscrowState::from_bytes(&b[..104]), Err(MyProgramError::DeserializationFailed));
    let mut data = vec![0u8; 105];
    EscrowState::initialize(&mut data, s.maker, s.mint_x, s.mint_y, s.amount, s.bump);
    assert_eq!(data, b);
    let mut longer = vec![0xeeu8; 110];
    EscrowState::initialize(&mut longer, s.maker, s.mint_x, s.mint_y, s.amount, s.bump);
    assert_eq!(&longer[..105], &b[..]);
    assert_eq!(&longer[105..], &[0xeeu8; 5]);
}

#[test]
fn largest_seed_list_round_trip() {
    let seeds: Vec<Vec<u8>> = (0..255u32).map(|i| vec![(i % 251) as u8; 255]).collect();
    let config = DelegateConfig { commit_frequency_ms: 0, validator: Some([0xabu8; 32]) };
    let bytes = encode_delegate_ix_data(&seeds, &config);
    assert_eq!(bytes.len(), 1 + 255 * 256 + 4 + 32);
    let (decoded, off) = decode_seed_list(&bytes).unwrap();
    assert_eq!(decoded, seeds);
    assert_eq!(off, 1 + 255 * 256);
    assert_eq!(deserialize_delegate_ix_data(&bytes), Ok((seeds.clone(), config)));
    assert_eq!(
        decode_seed_list(&bytes[..1 + 255 * 256 - 1]),
        Err(ProgramError::InvalidInstructionData)
    );
}
