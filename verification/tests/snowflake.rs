use momoka_core::graphql::error::{ClientFault, GraphQLError};
use momoka_core::model::snowflake::{from_input_value, Snowflake};

#[test]
fn generate_with_new_method() {
    let snowflake = Snowflake::new();
    assert!(snowflake.timestamp() > 0);
    assert_eq!(snowflake.cluster_id(), 0);
    assert_eq!(snowflake.inc(), 0);
}

#[test]
fn generate_with_a_custom_cluster_id() {
    let cluster_id: u16 = 2000;
    let snowflake = Snowflake::with_cluster_id(cluster_id).unwrap();
    assert_eq!(snowflake.cluster_id(), cluster_id);
    assert_eq!(snowflake.inc(), 0);
}

#[test]
fn generate_with_an_invalid_cluster_id() {
    let cluster_id: u16 = 0xFFFF;
    let snowflake = Snowflake::with_cluster_id(cluster_id);
    assert!(matches!(snowflake, Err(_)));
}

#[test]
fn generate_multiple_snowflake() {
    let cluster_id: u16 = 2000;
    let size: u16 = 20;
    let snowflakes = Snowflake::generate_with_cluster_id(cluster_id, size).unwrap();
    assert_eq!(
        snowflakes
            .iter()
            .map(|snowflake| snowflake.cluster_id())
            .collect::<Vec<u16>>(),
        (0..size)
            .collect::<Vec<u16>>()
            .iter()
            .map(|_| cluster_id)
            .collect::<Vec<_>>()
    );
    assert_eq!(
        snowflakes
            .iter()
            .map(|snowflake| snowflake.inc())
            .collect::<Vec<u16>>(),
        (0..size).collect::<Vec<u16>>()
    );
}

#[test]
fn generate_too_many_snowflake() {
    let size: u16 = 0xFFFF;
    let snowflakes = Snowflake::generate(size);
    assert!(matches!(snowflakes, Err(_)));
}

#[test]
fn generate_with_an_invalid_cluster_id_2() {
    let cluster_id: u16 = 0xFFFF;
    let size: u16 = 20;
    let snowflake = Snowflake::generate_with_cluster_id(cluster_id, size);
    assert!(matches!(snowflake, Err(_)));
}

#[test]
fn invalid_cluster_id_message() {
    let err = Snowflake::with_cluster_id(0x1000).unwrap_err();
    assert_eq!(err, "cluster id must not be using more than 12 bits.");
    let err = Snowflake::generate_with_cluster_id(0, 0x8000).unwrap_err();
    assert_eq!(
        err,
        "requested amount of snowflake must not be a number that using more than 15 bits."
    );
}

#[test]
fn timestamp_is_after_the_epoch() {
    let snowflake = Snowflake::new();
    assert!(snowflake.timestamp() >= 1680879600000);
}

#[test]
fn input_value_missing_is_a_client_fault() {
    let r = from_input_value(None);
    assert!(matches!(
        r,
        Err(GraphQLError::ClientFault(ClientFault::MustNotEmpty()))
    ));
}

#[test]
fn input_value_not_a_number_is_a_client_fault() {
    let r = from_input_value(Some("12a3"));
    match r {
        Err(GraphQLError::ClientFault(ClientFault::InvalidInteger(m))) => {
            assert_eq!(m, "12a3");
        }
        other => panic!("expected an invalid integer fault, got {:?}", other),
    }
}

#[test]
fn input_value_parses_back_to_a_snowflake() {
    let r = from_input_value(Some("12345")).unwrap();
    assert_eq!(r.inc(), 12345 & 0x7FFF);
    let max = from_input_value(Some("18446744073709551615")).unwrap();
    assert_eq!(max.cluster_id(), 0xFFF);
    assert!(matches!(
        from_input_value(Some("18446744073709551616")),
        Err(GraphQLError::ClientFault(ClientFault::InvalidInteger(_)))
    ));
    let plus = from_input_value(Some("+7")).unwrap();
    assert_eq!(plus.inc(), 7);
}
