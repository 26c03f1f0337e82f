use shipcat::quantity::{parse_cpu, parse_memory, QuantityError};

#[test]
fn memory_in_binary_units() {
    assert_eq!(parse_memory("512Mi"), Ok(512 * 1024 * 1024));
    assert_eq!(parse_memory("1Gi"), Ok(1024 * 1024 * 1024));
    assert_eq!(parse_memory("4Ki"), Ok(4096));
}

#[test]
fn memory_in_decimal_units() {
    assert_eq!(parse_memory("3k"), Ok(3000));
    assert_eq!(parse_memory("2M"), Ok(2_000_000));
    assert_eq!(parse_memory("7G"), Ok(7_000_000_000));
    assert_eq!(parse_memory("123"), Ok(123));
}

#[test]
fn memory_with_a_fraction() {
    assert_eq!(parse_memory("1.5Gi"), Ok(1_610_612_736));
    assert_eq!(parse_memory("0.5k"), Ok(500));
    assert_eq!(parse_memory("0.1Gi"), Ok(107_374_182));
    assert_eq!(parse_memory(".5Ki"), Ok(512));
    assert_eq!(parse_memory("2."), Ok(2));
}

#[test]
fn cpu_in_millicores() {
    assert_eq!(parse_cpu("250m"), Ok(250));
    assert_eq!(parse_cpu("2"), Ok(2000));
    assert_eq!(parse_cpu("0.5"), Ok(500));
    assert_eq!(parse_cpu("1k"), Ok(1_000_000));
    assert_eq!(parse_cpu("0.0005"), Ok(0));
    assert_eq!(parse_cpu("1.5m"), Ok(1));
}

#[test]
fn unknown_unit_is_refused() {
    assert_eq!(parse_memory("512Xi"), Err(QuantityError::UnknownUnit));
    assert_eq!(parse_memory("5 Mi"), Err(QuantityError::UnknownUnit));
    assert_eq!(parse_memory("5Mi2"), Err(QuantityError::UnknownUnit));
    assert_eq!(parse_cpu("2Mi"), Err(QuantityError::UnknownUnit));
    assert_eq!(parse_cpu("2M"), Err(QuantityError::UnknownUnit));
}

#[test]
fn bad_number_is_refused() {
    assert_eq!(parse_memory(""), Err(QuantityError::InvalidNumber));
    assert_eq!(parse_memory("."), Err(QuantityError::InvalidNumber));
    assert_eq!(parse_memory("1.2.3"), Err(QuantityError::InvalidNumber));
    assert_eq!(parse_memory("Mi"), Err(QuantityError::InvalidNumber));
    assert_eq!(parse_cpu("m"), Err(QuantityError::InvalidNumber));
    assert_eq!(parse_cpu("..5"), Err(QuantityError::InvalidNumber));
    assert_eq!(parse_cpu("1..Xi"), Err(QuantityError::InvalidNumber));
}

#[test]
fn huge_quantities_saturate() {
    assert_eq!(parse_memory("99999999999999999999999999"), Ok(u64::MAX));
    assert_eq!(parse_memory("18446744073709551615"), Ok(u64::MAX));
    assert_eq!(parse_memory("18446744073709551614"), Ok(u64::MAX - 1));
    assert_eq!(parse_memory("18014398509481984Ki"), Ok(u64::MAX));
    assert_eq!(parse_cpu("18446744073709552"), Ok(u64::MAX));
    assert_eq!(parse_cpu("000000000000000000000000000001"), Ok(1000));
}

#[test]
fn fractions_are_rounded_down_exactly() {
    assert_eq!(parse_memory("0.0009765625Mi"), Ok(1024));
    assert_eq!(parse_memory("0.0009765624999999999999999999999999999Mi"), Ok(1023));
    assert_eq!(parse_memory("0.000000001G"), Ok(1));
    assert_eq!(parse_memory("0.0000000019G"), Ok(1));
    assert_eq!(parse_memory("0.000000000931322574615478515625Gi"), Ok(1));
    assert_eq!(parse_memory("0.000000000931322574615478515624Gi"), Ok(0));
    assert_eq!(parse_memory("0.0000000009313225746154785156249999999999Gi"), Ok(0));
    assert_eq!(parse_memory("0.0000000009313225746154785156250000000001Gi"), Ok(1));
    assert_eq!(parse_memory("1.50000000000000000000000000000000000000000Gi"), Ok(1_610_612_736));
    assert_eq!(parse_memory("0.99999999999999999999999999999999999999"), Ok(0));
    assert_eq!(parse_cpu("0.00099999999999999999999999999999999999"), Ok(0));
    assert_eq!(parse_cpu("0.001"), Ok(1));
    assert_eq!(parse_cpu("999.9999999999999999999999999999999999m"), Ok(999));
}
