use clvmr::allocator::Allocator;
use condition_sanitizers::condition_sanitizers::{
    parse_amount, sanitize_announce_msg, sanitize_hash, sanitize_message_mode, zero_vec,
};
use condition_sanitizers::flags::NO_UNKNOWN_CONDS;
use condition_sanitizers::validation_error::{ErrorCode, ValidationErr};

#[test]
fn test_sanitize_hash() {
    let mut a = Allocator::new();
    let short = zero_vec(31);
    let valid = zero_vec(32);
    let long = zero_vec(33);

    let short_n = a.new_atom(&short).unwrap();
    assert_eq!(
        sanitize_hash(&a, short_n, 32, ErrorCode::InvalidCondition),
        Err(ValidationErr(short_n, ErrorCode::InvalidCondition))
    );
    let valid_n = a.new_atom(&valid).unwrap();
    assert_eq!(
        sanitize_hash(&a, valid_n, 32, ErrorCode::InvalidCondition),
        Ok(valid_n)
    );
    let long_n = a.new_atom(&long).unwrap();
    assert_eq!(
        sanitize_hash(&a, long_n, 32, ErrorCode::InvalidCondition),
        Err(ValidationErr(long_n, ErrorCode::InvalidCondition))
    );

    let pair = a.new_pair(short_n, long_n).unwrap();
    assert_eq!(
        sanitize_hash(&a, pair, 32, ErrorCode::InvalidCondition),
        Err(ValidationErr(pair, ErrorCode::InvalidCondition))
    );
}

#[test]
fn test_sanitize_announce_msg() {
    let mut a = Allocator::new();
    let valid = zero_vec(1024);
    let valid_n = a.new_atom(&valid).unwrap();
    assert_eq!(
        sanitize_announce_msg(&a, valid_n, ErrorCode::InvalidCondition),
        Ok(valid_n)
    );

    let long = zero_vec(1025);
    let long_n = a.new_atom(&long).unwrap();
    assert_eq!(
        sanitize_announce_msg(&a, long_n, ErrorCode::InvalidCondition),
        Err(ValidationErr(long_n, ErrorCode::InvalidCondition))
    );

    let pair = a.new_pair(valid_n, long_n).unwrap();
    assert_eq!(
        sanitize_announce_msg(&a, pair, ErrorCode::InvalidCondition),
        Err(ValidationErr(pair, ErrorCode::InvalidCondition))
    );
}

fn amount_tester(buf: &[u8]) -> Result<u64, ValidationErr> {
    let mut a = Allocator::new();
    let n = a.new_atom(buf).unwrap();

    parse_amount(&a, n, ErrorCode::InvalidCoinAmount)
}

#[test]
fn test_sanitize_amount() {
    // negative amounts are not allowed
    assert_eq!(
        amount_tester(&[0x80]).unwrap_err().1,
        ErrorCode::InvalidCoinAmount
    );
    assert_eq!(
        amount_tester(&[0xff]).unwrap_err().1,
        ErrorCode::InvalidCoinAmount
    );
    assert_eq!(
        amount_tester(&[0xff, 0]).unwrap_err().1,
        ErrorCode::InvalidCoinAmount
    );

    // leading zeros are somtimes necessary to make values positive
    assert_eq!(amount_tester(&[0, 0xff]), Ok(0xff));
    // but are disallowed when they are redundant
    assert_eq!(
        amount_tester(&[0, 0, 0, 0xff]).unwrap_err().1,
        ErrorCode::InvalidCoinAmount
    );
    assert_eq!(
        amount_tester(&[0, 0, 0, 0x80]).unwrap_err().1,
        ErrorCode::InvalidCoinAmount
    );
    assert_eq!(
        amount_tester(&[0, 0, 0, 0x7f]).unwrap_err().1,
        ErrorCode::InvalidCoinAmount
    );
    assert_eq!(
        amount_tester(&[0, 0, 0]).unwrap_err().1,
        ErrorCode::InvalidCoinAmount
    );

    // amounts aren't allowed to be too big
    assert_eq!(
        amount_tester(&[0x7f, 0, 0, 0, 0, 0, 0, 0, 0, 0, 0, 0, 0])
            .unwrap_err()
            .1,
        ErrorCode::InvalidCoinAmount
    );

    // this is small enough though
    assert_eq!(
        amount_tester(&[0, 0xff, 0xff, 0xff, 0xff, 0xff, 0xff, 0xff, 0xff]),
        Ok(0xffffffffffffffff)
    );
}

#[test]
fn test_sanitize_mode() {
    let cases: Vec<(i64, bool, bool)> = vec![
        (0, false, true),
        (-1, false, false),
        (1, false, true),
        (10000000000, false, false),
        (0xffffffffffff, false, false),
        (-0xffffffffffff, false, false),
        (0b1001001, false, false),
        // committing to only amount is not allowed in mempool mode
        (0b001001, false, true),
        (0b010010, true, true),
        (0b100100, true, true),
        (0b101101, true, true),
        // committing to only amount is not allowed in mempool mode
        (0b100001, false, true),
        (0b111111, true, true),
        (0b111100, true, true),
        (0b100111, true, true),
        // not committing to anything is not allowed in mempool mode
        (0b000111, false, true),
        (0b111000, false, true),
    ];
    for (value, pass_mempool, pass) in cases {
        let mut a = Allocator::new();
        let node = a.new_number(value.into()).unwrap();

        let ret = sanitize_message_mode(&a, node, 0);
        if pass {
            assert_eq!(ret.unwrap() as i64, value);
        } else {
            assert_eq!(ret.unwrap_err().1, ErrorCode::InvalidMessageMode);
        }

        let ret = sanitize_message_mode(&a, node, NO_UNKNOWN_CONDS);
        if pass_mempool {
            assert_eq!(ret.unwrap() as i64, value);
        } else {
            assert_eq!(ret.unwrap_err().1, ErrorCode::InvalidMessageMode);
        }
    }
}
