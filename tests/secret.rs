use masked_product::error::ProtocolError;
use masked_product::secret::Secret;
use masked_product::wire::{decode_frame, encode_frame};

fn narrowed(x: &str, y: &str) -> Result<(i64, i64), ProtocolError> {
    Secret::from_strings(x, y)?.to_i64_safely()
}

#[test]
fn new_secret_narrows_to_its_values() {
    assert_eq!(Secret::new(3, 4).to_i64_safely(), Ok((3, 4)));
    assert_eq!(Secret::new(0, 256).to_i64_safely(), Ok((0, 256)));
    assert_eq!(
        Secret::new(i64::MAX as u64, 1).to_i64_safely(),
        Ok((i64::MAX, 1))
    );
}

#[test]
fn values_from_2_pow_63_overflow() {
    assert_eq!(
        Secret::new(1u64 << 63, 1).to_i64_safely(),
        Err(ProtocolError::ValueOverflow)
    );
    assert_eq!(
        Secret::new(1, u64::MAX).to_i64_safely(),
        Err(ProtocolError::ValueOverflow)
    );
    assert_eq!(
        narrowed("9223372036854775808", "0"),
        Err(ProtocolError::ValueOverflow)
    );
    assert_eq!(
        narrowed("1", "18446744073709551616"),
        Err(ProtocolError::ValueOverflow)
    );
}

#[test]
fn values_above_the_prime_are_not_reduced() {
    assert_eq!(narrowed("1000000008", "5"), Ok((1_000_000_008, 5)));
    assert_eq!(
        narrowed("9223372036854775807", "0"),
        Ok((i64::MAX, 0))
    );
}

#[test]
fn parses_decimal_naturals() {
    assert_eq!(narrowed("0", "42"), Ok((0, 42)));
    assert_eq!(narrowed("+5", "1_000"), Ok((5, 1000)));
    assert_eq!(narrowed("0007", "12"), Ok((7, 12)));
}

#[test]
fn rejects_text_that_is_not_a_natural() {
    for bad in ["", "-1", "abc", "_1", "1.5", " 1", "++1", "+"] {
        assert_eq!(
            Secret::from_strings(bad, "1").err(),
            Some(ProtocolError::MalformedNumber),
            "{bad:?}"
        );
        assert_eq!(
            Secret::from_strings("1", bad).err(),
            Some(ProtocolError::MalformedNumber),
            "{bad:?}"
        );
    }
}

#[test]
fn encoded_secret_decodes_unchanged() {
    for v in [0u64, 1, 80, 1_000_000_006, (1u64 << 63) - 1] {
        let (x, y) = Secret::new(v, v / 2).to_i64_safely().unwrap();
        assert_eq!(decode_frame(&encode_frame(x)), Ok(v as i64));
        assert_eq!(decode_frame(&encode_frame(y)), Ok((v / 2) as i64));
    }
}
