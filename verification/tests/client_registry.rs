use westiny::address::NetAddress;
use westiny::client_registry::{AddError, ClientID, ClientRegistry, RemoveError};

fn make_addr(ip: [u8; 4], port: u16) -> NetAddress {
    NetAddress::v4(ip[0], ip[1], ip[2], ip[3], port)
}

#[test]
fn test_registered_client_address_can_be_retrieved() {
    let mut reg = ClientRegistry::new(4);

    let address = make_addr([8, 8, 8, 8], 1234);
    let result = reg.add(&address, "NariFeco");
    assert!(result.is_ok());
    let handle = reg.find_client(result.unwrap()).expect("client not found");
    assert_eq!(handle.addr, address);
    assert_eq!(handle.player_name, "NariFeco");

    let handle_by_addr = reg.find_by_addr(&address).expect("client by address is not found");
    assert_eq!(handle.player_name, handle_by_addr.player_name);
    assert_eq!(handle.id, handle_by_addr.id);
    assert_eq!(handle.addr, handle_by_addr.addr);
}

#[test]
fn test_multiple_clients_can_be_registered() {
    let mut reg = ClientRegistry::new(4);

    let address_one = make_addr([8, 8, 8, 8], 1234);
    let address_two = make_addr([1, 1, 1, 1], 1234);
    let one_id = reg.add(&address_one, "NariFeco").expect("Could not add NariFeco :(");
    let two_id = reg.add(&address_two, "BananJoe").expect("Could not add BananJoe :(");

    let handle_one = reg.find_client(one_id).expect("player one not found");
    let handle_two = reg.find_client(two_id).expect("player two not found");

    assert_eq!(handle_one.addr, address_one);
    assert_eq!(handle_one.player_name, "NariFeco");

    assert_eq!(handle_two.addr, address_two);
    assert_eq!(handle_two.player_name, "BananJoe");

    assert_eq!(reg.client_count(), 2);
}

#[test]
fn test_querying_non_registered_client_should_return_none() {
    let reg = ClientRegistry::new(4);
    let maybe_handle = reg.find_client(ClientID(42));
    assert!(maybe_handle.is_none());
}

#[test]
fn test_querying_non_registered_client_by_address_should_return_none() {
    let reg = ClientRegistry::new(4);
    let maybe_handle = reg.find_by_addr(&make_addr([1, 1, 1, 1], 42));
    assert!(maybe_handle.is_none());
}

#[test]
fn test_registering_same_client_again_should_return_its_id() {
    let mut reg = ClientRegistry::new(4);
    let address = make_addr([8, 8, 8, 8], 1234);
    let id = reg.add(&address, "NariFeco").expect("could not add NariFeco");

    let result = reg.add(&address, "NariFeco");
    let id_again = result.expect("NariFeco added.");
    assert_eq!(id, id_again);
}

#[test]
fn test_registering_same_client_with_different_name_should_return_error() {
    let mut reg = ClientRegistry::new(4);
    let address = make_addr([8, 8, 8, 8], 1234);
    reg.add(&address, "NariFeco").expect("could not add NariFeco");

    let result = reg.add(&address, "CsiterBela");
    let err = result.expect_err("CsiterBela added?");
    assert!(matches!(err, AddError::Unauthorized));
}

#[test]
fn test_register_client_above_slot_limit_should_return_error() {
    let mut reg = ClientRegistry::new(2);
    reg.add(&make_addr([8, 8, 8, 8], 1234), "NariFeco").expect("could not add NariFeco");
    reg.add(&make_addr([1, 1, 1, 1], 1234), "BananJoe").expect("could not add BananJoe");

    let err = reg.add(&make_addr([2, 2, 2, 2], 1234), "Overdose").expect_err("Overdose added?");
    assert!(matches!(err, AddError::ServerIsFull));
}

#[test]
fn test_register_different_address_with_same_name_should_return_error() {
    let mut reg = ClientRegistry::new(2);
    reg.add(&make_addr([8, 8, 8, 8], 1234), "NariFeco").expect("could not add NariFeco");
    let err = reg
        .add(&make_addr([1, 1, 1, 1], 1234), "NariFeco")
        .expect_err("could added another NariFeco?");

    assert!(matches!(err, AddError::Unauthorized));
}

#[test]
fn test_remove_by_address_should_remove_it() {
    let mut reg = ClientRegistry::new(2);
    let addr = make_addr([8, 8, 8, 8], 1234);
    let id = reg.add(&addr, "NariFeco").expect("could not add NariFeco");

    let removed_id = reg.remove(&addr).expect("Could not remove client by address");
    assert!(reg.find_client(id).is_none());
    assert_eq!(removed_id, id);
}

#[test]
fn test_removing_nonregistered_client_returns_error() {
    let mut reg = ClientRegistry::new(2);
    let addr = make_addr([8, 8, 8, 8], 1234);
    let err = reg.remove(&addr).expect_err("Successfully removed a non-registered client???");

    assert!(matches!(err, RemoveError::NoSuchClient));
}

#[test]
fn ids_count_up_and_are_not_reused_after_removal() {
    let mut reg = ClientRegistry::new(4);
    let a = make_addr([10, 0, 0, 1], 1);
    let b = make_addr([10, 0, 0, 2], 2);
    assert_eq!(reg.add(&a, "A"), Ok(ClientID(0)));
    assert_eq!(reg.add(&b, "B"), Ok(ClientID(1)));
    assert_eq!(reg.remove(&a), Ok(ClientID(0)));
    assert_eq!(reg.client_count(), 1);
    assert_eq!(reg.add(&a, "A"), Ok(ClientID(2)));
    assert_eq!(reg.get_clients().len(), 2);
    assert_eq!(reg.get_clients()[0].id, ClientID(1));
    assert_eq!(reg.get_clients()[1].id, ClientID(2));
}

#[test]
fn full_server_refuses_even_a_registered_client() {
    let mut reg = ClientRegistry::new(1);
    let a = make_addr([10, 0, 0, 1], 1);
    assert_eq!(reg.add(&a, "A"), Ok(ClientID(0)));
    assert_eq!(reg.add(&a, "A"), Err(AddError::ServerIsFull));
}

#[test]
fn zero_slots_refuse_everyone() {
    let mut reg = ClientRegistry::new(0);
    assert_eq!(reg.add(&make_addr([10, 0, 0, 1], 1), "A"), Err(AddError::ServerIsFull));
    assert_eq!(reg.client_count(), 0);
}

#[test]
fn same_ip_other_port_is_another_address() {
    let mut reg = ClientRegistry::new(4);
    assert_eq!(reg.add(&make_addr([10, 0, 0, 1], 1), "A"), Ok(ClientID(0)));
    assert_eq!(reg.add(&make_addr([10, 0, 0, 1], 2), "B"), Ok(ClientID(1)));
    assert_eq!(reg.add(&make_addr([10, 0, 0, 1], 2), "A"), Err(AddError::Unauthorized));
    assert_eq!(reg.find_by_addr(&make_addr([10, 0, 0, 1], 2)).unwrap().player_name, "B");
}

#[test]
fn registry_report_lists_clients_in_order() {
    let mut reg = ClientRegistry::new(4);
    reg.add(&make_addr([8, 8, 8, 8], 1234), "NariFeco").expect("first client");
    reg.add(&make_addr([1, 1, 1, 1], 80), "BananJoe").expect("second client");
    let text = reg.report(|addr: &NetAddress| format!("port {}", addr.port()));
    assert_eq!(
        text,
        "ClientRegistry (count: 2)\n  - ID=0, address=port 1234, player_name=NariFeco\n  - ID=1, address=port 80, player_name=BananJoe"
    );
}

#[test]
fn empty_registry_report() {
    let reg = ClientRegistry::new(4);
    assert_eq!(reg.report(|_addr: &NetAddress| String::new()), "ClientRegistry (count: 0)");
}
