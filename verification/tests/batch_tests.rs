use qdcrop::batch::{count_failures, pairing_mode, PairingMode};

#[test]
fn pairing_follows_the_input_output_counts() {
    assert_eq!(pairing_mode(3, 2), PairingMode::OutputCountMismatch);
    assert_eq!(pairing_mode(3, 0), PairingMode::DeriveFromBase);
    assert_eq!(pairing_mode(3, 1), PairingMode::DeriveFromBase);
    assert_eq!(pairing_mode(3, 3), PairingMode::ZipPairs);
    assert_eq!(pairing_mode(1, 2), PairingMode::TooManyOutputs);
    assert_eq!(pairing_mode(1, 0), PairingMode::Single);
    assert_eq!(pairing_mode(1, 1), PairingMode::Single);
}

#[test]
fn failure_counting_is_exact() {
    assert_eq!(count_failures(&vec![]), 0);
    assert_eq!(count_failures(&vec![true, true, true]), 0);
    assert_eq!(count_failures(&vec![false, true, false, false]), 3);
    assert_eq!(count_failures(&vec![true, false, true]), 1);
}
