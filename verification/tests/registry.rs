use lapin::error::ErrorKind;
use lapin::limits::{Budget, ReceiveLimits};
use lapin::registry::{checked_table_bytes, table_bytes, value_bytes, Registry};
use lapin::topology::{ExchangeDeclareOptions, ExchangeKind, QueueDeclareOptions};
use lapin::types::{table_eq, AMQPValue, DecimalValue, FieldTable};

const EXCHANGE: ExchangeDeclareOptions = ExchangeDeclareOptions {
    passive: false,
    durable: true,
    auto_delete: false,
    internal: false,
    nowait: false,
};

const QUEUE: QueueDeclareOptions = QueueDeclareOptions {
    passive: false,
    durable: true,
    exclusive: false,
    auto_delete: false,
    nowait: false,
};

fn table(entries: Vec<(&str, AMQPValue)>) -> FieldTable {
    let mut table = FieldTable::new();
    for (name, value) in entries {
        table.insert(name.to_owned(), value);
    }
    table
}

fn budget(bytes: usize) -> Option<Budget> {
    Some(Budget::new(ReceiveLimits {
        message_bytes: bytes,
        retained_bytes: bytes,
        retained_messages: 4,
    }))
}

#[test]
fn values_are_charged_by_what_they_hold() {
    assert_eq!(value_bytes(&AMQPValue::Void), 128);
    assert_eq!(value_bytes(&AMQPValue::LongInt(7)), 128);
    assert_eq!(value_bytes(&AMQPValue::DecimalValue(DecimalValue { scale: 1, value: 2 })), 128);
    assert_eq!(value_bytes(&AMQPValue::ShortString("abc".to_owned())), 134);
    // Bytes count, not characters.
    assert_eq!(value_bytes(&AMQPValue::ShortString("\u{20ac}".to_owned())), 134);
    assert_eq!(value_bytes(&AMQPValue::LongString(vec![1, 2, 3, 4])), 136);
    assert_eq!(value_bytes(&AMQPValue::ByteArray(vec![0; 10])), 148);
    assert_eq!(
        value_bytes(&AMQPValue::FieldArray(vec![
            AMQPValue::Void,
            AMQPValue::ShortString("a".to_owned())
        ])),
        128 + 128 + 130
    );
    assert_eq!(
        value_bytes(&AMQPValue::FieldTable(table(vec![("ab", AMQPValue::Void)]))),
        128 + 128 + 4 + 128
    );
}

#[test]
fn tables_are_charged_by_their_entries() {
    assert_eq!(table_bytes(&FieldTable::new()), 0);
    let two = table(vec![("x", AMQPValue::Void), ("yz", AMQPValue::ByteArray(vec![9]))]);
    assert_eq!(table_bytes(&two), (128 + 2 + 128) + (128 + 4 + 130));
    assert_eq!(checked_table_bytes(&two), Some(520));
    let turned = table(vec![("yz", AMQPValue::ByteArray(vec![9])), ("x", AMQPValue::Void)]);
    assert_eq!(table_bytes(&turned), 520);
}

#[test]
fn names_occur_once_in_a_table() {
    let again = table(vec![("x", AMQPValue::Void), ("x", AMQPValue::Boolean(true))]);
    assert_eq!(again.entries().len(), 1);
    assert!(matches!(again.entries()[0].1, AMQPValue::Boolean(true)));
}

#[test]
fn tables_compare_by_value() {
    let a = || table(vec![("x", AMQPValue::LongInt(1)), ("y", AMQPValue::Float(0))]);
    let b = table(vec![("y", AMQPValue::Float(0x8000_0000)), ("x", AMQPValue::LongInt(1))]);
    assert!(table_eq(&a(), &b));
    assert!(table_eq(&a(), &a()));
    let other = table(vec![("x", AMQPValue::LongInt(2)), ("y", AMQPValue::Float(0))]);
    assert!(!table_eq(&a(), &other));
    let unordered = table(vec![("x", AMQPValue::Double(f64::NAN.to_bits()))]);
    assert!(!table_eq(&unordered, &unordered));
    let ordered = table(vec![("x", AMQPValue::Double(1.5f64.to_bits()))]);
    assert!(table_eq(&ordered, &ordered));
}

#[test]
fn declared_exchange_is_charged() {
    let mut registry = Registry::new();
    // 512 for the exchange, 2 * 2 for its name, nothing for an empty table.
    let mut limit = budget(516);
    let declare = |registry: &mut Registry, limit: &mut Option<Budget>, arguments: FieldTable| {
        registry.register_exchange(
            limit,
            "ex".to_owned(),
            ExchangeKind::Direct,
            EXCHANGE,
            arguments,
        )
    };
    assert!(declare(&mut registry, &mut limit, FieldTable::new()).is_ok());
    let refused = declare(&mut registry, &mut limit, table(vec![("k", AMQPValue::Void)]));
    assert_eq!(*refused.unwrap_err().kind(), ErrorKind::ResourceLimitExceeded);
    // The definition is recorded all the same.
    let topology = registry.exchanges_topology();
    assert_eq!(topology.len(), 1);
    assert_eq!(topology[0].name, "ex");
    assert_eq!(topology[0].kind, Some(ExchangeKind::Direct));
    assert_eq!(topology[0].options, Some(EXCHANGE));
    assert_eq!(topology[0].arguments.as_ref().unwrap().entries().len(), 1);
    // Once it is forgotten there is room again.
    registry.deregister_exchange(&mut limit, "ex");
    assert!(registry.exchanges_topology().is_empty());
    assert!(declare(&mut registry, &mut limit, FieldTable::new()).is_ok());
}

#[test]
fn declared_queue_is_charged() {
    let mut registry = Registry::new();
    let mut limit = budget(515);
    let refused =
        registry.register_queue(&mut limit, "qu".to_owned(), QUEUE, FieldTable::new());
    assert_eq!(*refused.unwrap_err().kind(), ErrorKind::ResourceLimitExceeded);
    registry.deregister_queue(&mut limit, "qu");
    assert!(registry
        .register_queue(&mut limit, "q".to_owned(), QUEUE, FieldTable::new())
        .is_ok());
    let topology = registry.queues_topology();
    assert_eq!(topology.len(), 1);
    assert_eq!(topology[0].name, "q");
    assert_eq!(topology[0].options, Some(QUEUE));
}

#[test]
fn bindings_are_charged_and_forgotten() {
    let mut registry = Registry::new();
    // 512 + 2 for the exchange, 256 + 2 + 4 for the binding.
    let mut limit = budget(776);
    let bind = |registry: &mut Registry, limit: &mut Option<Budget>| {
        registry.register_exchange_binding(
            limit,
            "d".to_owned(),
            "s".to_owned(),
            "rk".to_owned(),
            FieldTable::new(),
        )
    };
    assert!(bind(&mut registry, &mut limit).is_ok());
    let topology = registry.exchanges_topology();
    assert!(topology[0].kind.is_none() && topology[0].options.is_none());
    assert_eq!(topology[0].bindings.len(), 1);
    assert_eq!(topology[0].bindings[0].source, "s");
    assert_eq!(topology[0].bindings[0].routing_key, "rk");
    assert!(bind(&mut registry, &mut limit).is_err());
    registry.deregister_exchange_binding(&mut limit, "d", "s", "other", &FieldTable::new());
    assert_eq!(registry.exchanges_topology()[0].bindings.len(), 2);
    registry.deregister_exchange_binding(&mut limit, "d", "s", "rk", &FieldTable::new());
    assert_eq!(registry.exchanges_topology()[0].bindings.len(), 0);
    registry.deregister_exchange_binding(&mut limit, "unknown", "s", "rk", &FieldTable::new());
    assert!(bind(&mut registry, &mut limit).is_ok());
}

#[test]
fn queue_bindings_survive_a_declaration() {
    let mut registry = Registry::new();
    let mut limit = None;
    let arguments = || table(vec![("x-match", AMQPValue::LongString(b"all".to_vec()))]);
    assert!(registry
        .register_queue_binding(
            &mut limit,
            "q".to_owned(),
            "s".to_owned(),
            "".to_owned(),
            arguments()
        )
        .is_ok());
    assert!(registry
        .register_queue(&mut limit, "q".to_owned(), QUEUE, FieldTable::new())
        .is_ok());
    assert_eq!(registry.queues_topology()[0].bindings.len(), 1);
    registry.deregister_queue_binding(&mut limit, "q", "s", "", &FieldTable::new());
    assert_eq!(registry.queues_topology()[0].bindings.len(), 1);
    registry.deregister_queue_binding(&mut limit, "q", "s", "", &arguments());
    assert_eq!(registry.queues_topology()[0].bindings.len(), 0);
}

#[test]
fn registry_shares_its_budget() {
    let mut registry = Registry::new();
    let mut limit = budget(1000);
    let taken = limit.as_mut().unwrap().reserve(600).unwrap();
    assert!(registry
        .register_queue(&mut limit, "q".to_owned(), QUEUE, FieldTable::new())
        .is_err());
    limit.as_mut().unwrap().release(taken);
    assert!(registry.check_limit(&mut limit).is_ok());
    assert!(limit.as_mut().unwrap().reserve(487).is_err());
    assert!(limit.as_mut().unwrap().reserve(486).is_ok());
    registry.release(&mut limit);
    assert!(limit.as_mut().unwrap().reserve(514).is_ok());
}

#[test]
fn refused_declaration_can_be_withdrawn() {
    let mut registry = Registry::new();
    let mut limit = budget(600);
    let declare = |registry: &mut Registry, limit: &mut Option<Budget>, name: &str| {
        registry.register_queue(limit, name.to_owned(), QUEUE, FieldTable::new())
    };
    assert!(declare(&mut registry, &mut limit, "a").is_ok());
    assert!(declare(&mut registry, &mut limit, "b").is_err());
    assert_eq!(registry.queues_topology().len(), 2);
    registry.deregister_queue(&mut limit, "b");
    assert_eq!(registry.queues_topology().len(), 1);
    // 512 + 2 bytes are reserved, as before.
    assert!(limit.as_mut().unwrap().reserve(87).is_err());
    assert!(limit.as_mut().unwrap().reserve(86).is_ok());
}
