use westiny::network_id::{EntityType, NetworkId, NetworkIdSupplier};

#[test]
fn network_id_supplier_incremental() {
    let mut supplier = NetworkIdSupplier::new();
    for i in 0..1000 {
        let actual = supplier.next(EntityType::Player);
        let expected = NetworkId { entity_type: EntityType::Player, id: i };
        assert_eq!(expected, actual, "With Player entity")
    }

    for i in 1000..1100 {
        let actual = supplier.next(EntityType::Player);
        let expected = NetworkId { entity_type: EntityType::Player, id: i };
        assert_eq!(expected, actual, "With Player entity")
    }
}

#[test]
fn each_entity_type_counts_on_its_own() {
    let mut supplier = NetworkIdSupplier::default();
    assert_eq!(supplier.next(EntityType::Player), NetworkId::new(EntityType::Player, 0));
    assert_eq!(supplier.next(EntityType::Player), NetworkId::new(EntityType::Player, 1));
    assert_eq!(supplier.next(EntityType::Monster), NetworkId::new(EntityType::Monster, 0));
    assert_eq!(supplier.next(EntityType::Player), NetworkId::new(EntityType::Player, 2));
    assert_eq!(supplier.next(EntityType::Monster), NetworkId::new(EntityType::Monster, 1));
}
