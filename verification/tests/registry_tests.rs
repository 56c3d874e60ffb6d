use keryx_rules::registry::{DatabaseStorePrefixes, SEPARATOR};

#[test]
fn test_as_ref() {
    let prefix = DatabaseStorePrefixes::AcceptanceData;
    assert_eq!(&[u8::from(prefix)], &prefix.as_ref());
    assert_eq!(
        std::mem::size_of::<u8>(),
        std::mem::size_of::<DatabaseStorePrefixes>(),
        "DatabaseStorePrefixes is expected to have the same memory layout of u8"
    );
}

#[test]
fn prefix_bytes_match_the_store_layout() {
    assert_eq!(DatabaseStorePrefixes::AcceptanceData.to_u8(), 1);
    assert_eq!(DatabaseStorePrefixes::PruningSamples.to_u8(), 29);
    assert_eq!(DatabaseStorePrefixes::ServiceLedgerSnapshot.to_u8(), 201);
    assert_eq!(DatabaseStorePrefixes::Separator.to_u8(), SEPARATOR);
    assert_eq!(DatabaseStorePrefixes::Headers.into_iter(), vec![8u8]);
    let v: Vec<u8> = DatabaseStorePrefixes::Ghostdag.into();
    assert_eq!(v, vec![5u8]);
}

#[test]
fn every_byte_round_trips_through_its_prefix() {
    let mut known = 0;
    for b in 0u8..=255 {
        if let Some(p) = DatabaseStorePrefixes::from_u8(b) {
            assert_eq!(p.to_u8(), b);
            assert_eq!(DatabaseStorePrefixes::from_u8(p.to_u8()), Some(p));
            known += 1;
        }
    }
    assert!(known > 0);
    assert_eq!(DatabaseStorePrefixes::from_u8(0), None);
}
