//! What each operation does to what it is given, field by field and entry by entry.
use vstd::prelude::*;

use crate::channel::Handover;
use crate::configuration::{Authentication, ConnectionProperties};
use crate::connection::{ConnectionView, ConnectorControl, Parts, StopStep};
use crate::error::{ConnectionState, Error, ErrorKind, IoErrorKind};
use crate::events::{Event, EventsSender, ListenerView, OverflowNotice};
use crate::limits::Budget;
use crate::registry::{Registry, RegistryView};
use crate::socket_state::{PendingView, SocketEvent, SocketView};
use crate::task_scope::ScopeView;
use crate::topology::{
    BindingDefinition, BindingView, ExchangeDeclareOptions, ExchangeDefinition, ExchangeKind,
    ExchangeView, KindView, QueueDeclareOptions, QueueDefinition, QueueView,
};
use crate::types::{AMQPValue, TableView, ValueView};

verus! {

/// Credentials are explicit if a provider gives them and they never have to be renewed. Without a
/// provider, or with one whose credentials hold for some time only, however long, they are not.
pub proof fn credentials_that_expire_are_not_explicit(options: ConnectionProperties, time: u64)
    ensures
        !(ConnectionProperties { auth_provider: None, ..options }).explicit_authentication(),
        !(ConnectionProperties {
            auth_provider: Some(Authentication { valid_for: Some(time) }),
            ..options
        }).explicit_authentication(),
        (ConnectionProperties {
            auth_provider: Some(Authentication { valid_for: None }),
            ..options
        }).explicit_authentication(),
        options.explicit_authentication() ==> options.auth_provider == Some(
            Authentication { valid_for: None },
        ),
{
}

/// The parts of a new connection go to the URI and by the options that were given, nothing has
/// happened to them yet, and they belong together.
pub proof fn new_parts_are_as_asked_for(
    parts: Parts,
    uri: amq_protocol::uri::AMQPUri,
    options: ConnectionProperties,
)
    requires
        parts.fresh(uri, options),
    ensures
        parts.uri == uri,
        parts.backoff == options.backoff,
        parts.connection@.configuration.auto_recover == options.auto_recover,
        parts.connection@.configuration.auth_provider == options.auth_provider,
        parts.connection@.configuration.backoff == options.backoff,
        parts.connection@.state == ConnectionState::Initial,
        parts.connection@.events == parts.events.identity(),
        !parts.control.stopped(),
        parts.control.signal() == parts.tasks.signal(),
        parts.socket.well_formed(),
        parts.socket@.readable && parts.socket@.writable,
        !parts.socket@.pending.readable && !parts.socket@.pending.writable
            && !parts.socket@.pending.wake,
        !parts.tasks@.stopped && parts.tasks@.active == 0 && parts.tasks.untold() == 0,
        parts.events.spec_sender().well_formed(),
        parts.events.spec_sender().listeners().len() == 0,
        !parts.events.spec_sender().overflowed(),
{
}

/// A connection that sends nothing when it is dropped differs in that alone.
pub proof fn silence_changes_nothing_else(connection: ConnectionView)
    ensures
        !connection.silent().closes_on_drop,
        connection.silent().explicit_close,
        connection.silent().configuration == connection.configuration,
        connection.silent().state == connection.state,
        connection.silent().events == connection.events,
{
}

/// Stopping takes four steps in this order the first time, and none afterwards.
pub proof fn stopping_takes_these_steps(
    before: ConnectorControl,
    after: ConnectorControl,
    steps: Seq<StopStep>,
)
    requires
        before.halted(after, steps),
    ensures
        after.stopped(),
        after.signal() == before.signal(),
        before.stopped() ==> steps.len() == 0,
        !before.stopped() ==> {
            &&& steps.len() == 4
            &&& steps[0] matches StopStep::FailChannels(error) && error.spec_kind()
                == ErrorKind::IOError(IoErrorKind::ConnectionAborted, None)
            &&& steps[1] == StopStep::StopTasks
            &&& steps[2] == StopStep::StopRequests
            &&& steps[3] == StopStep::WakeTransport
        },
{
}

/// An error with a text has that text, and no other kind of error has it.
pub proof fn errors_carry_their_text(error: Error, kind: IoErrorKind, text: String)
    ensures
        error.spec_kind() == ErrorKind::IOError(kind, Some(text)) ==> error.is_io_message(
            kind,
            text@,
        ) && !error.is_other_message(text@),
        error.spec_kind() == ErrorKind::Other(text) ==> error.is_other_message(text@)
            && !error.is_io_message(kind, text@),
        error.is_io_message(kind, text@) ==> (error.spec_kind() matches ErrorKind::IOError(
            k,
            Some(said),
        ) && k == kind && said@ == text@),
        error.is_other_message(text@) ==> (error.spec_kind() matches ErrorKind::Other(said)
            && said@ == text@),
{
}

/// A text is charged for the bytes of its encoding.
pub proof fn text_is_charged_by_its_bytes(text: Seq<char>)
    ensures
        crate::registry::text_bytes(text) == vstd::utf8::encode_utf8(text).len(),
{
}

/// A number is counted in a `usize` if it fits into one, as the number that it is.
pub proof fn numbers_that_fit_are_counted(n: nat)
    ensures
        n <= usize::MAX ==> (crate::registry::fitting(n) matches Some(count) && count == n),
        n > usize::MAX ==> crate::registry::fitting(n) is None,
{
}

/// An empty table is charged nothing, and each entry is charged for its name, its value, and a fixed
/// charge.
pub proof fn each_entry_is_charged(table: TableView, name: Seq<char>, value: ValueView)
    ensures
        crate::registry::table_size(Seq::empty()) == 0,
        crate::registry::table_size(table.push((name, value))) == crate::registry::table_size(table)
            + 128 + 2 * vstd::utf8::encode_utf8(name).len() + crate::registry::value_size(value),
{
    assert(table.push((name, value)).drop_last() =~= table);
}

/// An empty list is charged nothing, and each value in it is charged.
pub proof fn each_element_is_charged(values: Seq<ValueView>, value: ValueView)
    ensures
        crate::registry::array_size(Seq::empty()) == 0,
        crate::registry::array_size(values.push(value)) == crate::registry::array_size(values)
            + crate::registry::value_size(value),
{
    assert(values.push(value).drop_last() =~= values);
}

/// A value is charged twice for each byte that it holds, for every value inside it, and a fixed
/// charge. A value that holds neither is charged that alone.
pub proof fn value_is_charged_for_what_it_holds(value: ValueView)
    ensures
        match value {
            ValueView::LongString(bytes) => crate::registry::value_size(value) == 128 + 2
                * bytes.len(),
            ValueView::ByteArray(bytes) => crate::registry::value_size(value) == 128 + 2
                * bytes.len(),
            ValueView::ShortString(text) => crate::registry::value_size(value) == 128 + 2
                * vstd::utf8::encode_utf8(text).len(),
            ValueView::FieldTable(table) => crate::registry::value_size(value) == 128
                + crate::registry::table_size(table),
            ValueView::FieldArray(values) => crate::registry::value_size(value) == 128
                + crate::registry::array_size(values),
            _ => crate::registry::value_size(value) == 128,
        },
{
}

/// Every binding to an exchange or a queue is charged: for its source, its routing key, its arguments,
/// and a fixed charge.
pub proof fn each_binding_is_charged(
    exchange: ExchangeView,
    queue: QueueView,
    binding: BindingView,
)
    ensures
        crate::registry::exchange_size(
            ExchangeView { bindings: exchange.bindings.push(binding), ..exchange },
        ) == crate::registry::exchange_size(exchange) + 256 + 2 * vstd::utf8::encode_utf8(
            binding.source,
        ).len() + 2 * vstd::utf8::encode_utf8(binding.routing_key).len()
            + crate::registry::table_size(binding.arguments),
        crate::registry::queue_size(
            QueueView { bindings: queue.bindings.push(binding), ..queue },
        ) == crate::registry::queue_size(queue) + 256 + 2 * vstd::utf8::encode_utf8(
            binding.source,
        ).len() + 2 * vstd::utf8::encode_utf8(binding.routing_key).len()
            + crate::registry::table_size(binding.arguments),
{
    assert(exchange.bindings.push(binding).drop_last() =~= exchange.bindings);
    assert(queue.bindings.push(binding).drop_last() =~= queue.bindings);
}

/// Recording a binding charges for it, whatever else is bound.
pub proof fn binding_raises_the_charge(
    exchange: ExchangeView,
    queue: QueueView,
    binding: BindingView,
)
    ensures
        crate::registry::exchange_size(exchange.bound(binding)) == crate::registry::exchange_size(
            exchange,
        ) + 256 + 2 * crate::registry::text_bytes(binding.source) + 2 * crate::registry::text_bytes(
            binding.routing_key,
        ) + crate::registry::table_size(binding.arguments),
        crate::registry::queue_size(queue.bound(binding)) == crate::registry::queue_size(queue)
            + 256 + 2 * crate::registry::text_bytes(binding.source) + 2
            * crate::registry::text_bytes(binding.routing_key) + crate::registry::table_size(
            binding.arguments,
        ),
{
    each_binding_is_charged(exchange, queue, binding);
}

/// An exchange or a queue without arguments and bindings is charged for its name and a fixed charge,
/// and the arguments of its declaration are charged on top.
pub proof fn each_definition_is_charged(
    exchange: ExchangeView,
    queue: QueueView,
    arguments: TableView,
)
    ensures
        crate::registry::exchange_size(
            ExchangeView { arguments: None, bindings: Seq::empty(), ..exchange },
        ) == 512 + 2 * vstd::utf8::encode_utf8(exchange.name).len(),
        crate::registry::queue_size(
            QueueView { arguments: None, bindings: Seq::empty(), ..queue },
        ) == 512 + 2 * vstd::utf8::encode_utf8(queue.name).len(),
        crate::registry::exchange_size(ExchangeView { arguments: Some(arguments), ..exchange })
            == crate::registry::exchange_size(ExchangeView { arguments: None, ..exchange })
            + crate::registry::table_size(arguments),
        crate::registry::queue_size(QueueView { arguments: Some(arguments), ..queue })
            == crate::registry::queue_size(QueueView { arguments: None, ..queue })
            + crate::registry::table_size(arguments),
{
}

/// A registry without definitions is charged nothing, and each definition under a name that was free
/// is charged, whatever else is defined.
pub proof fn each_name_is_charged(
    registry: RegistryView,
    name: Seq<char>,
    exchange: ExchangeView,
    queue: QueueView,
)
    requires
        registry.exchanges.dom().finite(),
        registry.queues.dom().finite(),
    ensures
        (RegistryView { exchanges: Map::empty(), queues: Map::empty(), ..registry }).size() == 0,
        !registry.exchanges.dom().contains(name) ==> (RegistryView {
            exchanges: registry.exchanges.insert(name, exchange),
            ..registry
        }).size() == registry.size() + crate::registry::exchange_size(exchange),
        !registry.queues.dom().contains(name) ==> (RegistryView {
            queues: registry.queues.insert(name, queue),
            ..registry
        }).size() == registry.size() + crate::registry::queue_size(queue),
{
    if !registry.exchanges.dom().contains(name) {
        crate::definitions::lemma_total_size_insert::<ExchangeDefinition>(
            registry.exchanges,
            name,
            exchange,
        );
    }
    if !registry.queues.dom().contains(name) {
        crate::definitions::lemma_total_size_insert::<QueueDefinition>(
            registry.queues,
            name,
            queue,
        );
    }
}

/// A budget has room for a reservation, or for a change of one, just where no limit is exceeded.
pub proof fn room_goes_by_the_limits(budget: Budget, from: nat, to: nat)
    ensures
        budget.admits(to) <==> {
            &&& to <= budget.limits().message_bytes
            &&& crate::limits::total_bytes(budget.outstanding()) + to
                <= budget.limits().retained_bytes
            &&& budget.outstanding().len() + 1 <= budget.limits().retained_messages
        },
        budget.admits_resize(from, to) <==> crate::limits::total_bytes(budget.outstanding()) + to
            <= budget.limits().retained_bytes + from,
        budget.holds(to) <==> budget.outstanding().count(to) > 0,
{
}

/// A registry is answered by the limits: a first reservation needs room for one more, a later one room
/// for the difference, and without a budget everything goes.
pub proof fn answer_goes_by_the_limits(
    before: RegistryView,
    budget: Option<Budget>,
    result: Result<(), Error>,
)
    requires
        crate::registry::answers(before, budget, result),
    ensures
        budget is None ==> result is Ok,
        budget matches Some(budget) ==> match before.reserved {
            Some(reserved) => result is Ok <==> crate::limits::total_bytes(budget.outstanding())
                + before.size() <= budget.limits().retained_bytes + reserved,
            None => result is Ok <==> {
                &&& before.size() <= budget.limits().message_bytes
                &&& crate::limits::total_bytes(budget.outstanding()) + before.size()
                    <= budget.limits().retained_bytes
                &&& budget.outstanding().len() < budget.limits().retained_messages
            },
        },
        result matches Err(error) ==> error.spec_kind() == ErrorKind::ResourceLimitExceeded,
{
}

/// Settling keeps the definitions and the budget. What is reserved afterwards is either exactly what
/// the definitions are charged for, in place of what was reserved before, or what it was.
pub proof fn settling_charges_what_is_declared(
    before: RegistryView,
    budget: Budget,
    after: RegistryView,
    left: Budget,
)
    requires
        crate::registry::settled(before, Some(budget), after, Some(left)),
        before.reserved matches Some(reserved) ==> budget.outstanding().contains(reserved),
    ensures
        after.exchanges == before.exchanges,
        after.queues == before.queues,
        left.limits() == budget.limits(),
        left.identity() == budget.identity(),
        after.reserved == Some(before.size()) || after.reserved == before.reserved,
        ({
            let fits = match before.reserved {
                Some(reserved) => crate::limits::total_bytes(budget.outstanding()) + before.size()
                    <= budget.limits().retained_bytes + reserved,
                None => {
                    &&& before.size() <= budget.limits().message_bytes
                    &&& crate::limits::total_bytes(budget.outstanding()) + before.size()
                        <= budget.limits().retained_bytes
                    &&& budget.outstanding().len() < budget.limits().retained_messages
                },
            };
            if fits {
                &&& after.reserved == Some(before.size())
                &&& match before.reserved {
                    Some(reserved) => left.outstanding().insert(reserved)
                        == budget.outstanding().insert(before.size()),
                    None => left.outstanding() == budget.outstanding().insert(before.size()),
                }
            } else {
                &&& after.reserved == before.reserved
                &&& left.outstanding() == budget.outstanding()
            }
        }),
{
    if let Some(reserved) = before.reserved {
        assert(budget.outstanding().remove(reserved).insert(before.size()).insert(reserved)
            =~= budget.outstanding().insert(before.size()));
    }
}

/// A registry for which nothing is reserved yet goes with any budget that is in order, and one for
/// which something is reserved goes with the budget that holds it, and with no other.
pub proof fn registry_goes_with_its_budget(registry: Registry, budget: Budget)
    requires
        registry.well_formed(),
        budget.well_formed(),
    ensures
        registry@.reserved is None && registry.charged() is None ==> registry.accounted(
            Some(budget),
        ) && registry.accounted(None),
        registry.accounted(Some(budget)) ==> (registry@.reserved matches Some(reserved)
            ==> budget.outstanding().count(reserved) > 0),
        registry.accounted(Some(budget)) ==> (registry.charged() matches Some(charged) ==> charged
            == budget.identity()),
        registry.accounted(None) ==> registry@.reserved is None,
{
}

/// The exchange that has been declared under a name reads back as it was declared, with the bindings
/// that it had, and no other exchange and no queue changes.
pub proof fn declared_exchange_reads_back(
    registry: RegistryView,
    name: Seq<char>,
    kind: KindView,
    options: ExchangeDeclareOptions,
    arguments: TableView,
)
    requires
        registry.exchanges.dom().contains(name) ==> registry.exchanges[name].name == name,
    ensures
        ({
            let after = registry.with_exchange(
                registry.exchange(name).declared_as(kind, options, arguments),
            );
            &&& after.exchanges.dom() == registry.exchanges.dom().insert(name)
            &&& after.exchanges[name].name == name
            &&& after.exchanges[name].kind == Some(kind)
            &&& after.exchanges[name].options == Some(options)
            &&& after.exchanges[name].arguments == Some(arguments)
            &&& registry.exchanges.dom().contains(name) ==> after.exchanges[name].bindings
                == registry.exchanges[name].bindings
            &&& !registry.exchanges.dom().contains(name)
                ==> after.exchanges[name].bindings.len() == 0
            &&& forall|other: Seq<char>|
                other != name ==> after.exchanges[other] == #[trigger] registry.exchanges[other]
            &&& after.queues == registry.queues
            &&& after.reserved == registry.reserved
        }),
{
}

/// The queue that has been declared under a name reads back as it was declared, with the bindings that
/// it had, and no other queue and no exchange changes.
pub proof fn declared_queue_reads_back(
    registry: RegistryView,
    name: Seq<char>,
    options: QueueDeclareOptions,
    arguments: TableView,
)
    requires
        registry.queues.dom().contains(name) ==> registry.queues[name].name == name,
    ensures
        ({
            let after = registry.with_queue(registry.queue(name).declared_as(options, arguments));
            &&& after.queues.dom() == registry.queues.dom().insert(name)
            &&& after.queues[name].name == name
            &&& after.queues[name].options == Some(options)
            &&& after.queues[name].arguments == Some(arguments)
            &&& registry.queues.dom().contains(name) ==> after.queues[name].bindings
                == registry.queues[name].bindings
            &&& !registry.queues.dom().contains(name) ==> after.queues[name].bindings.len() == 0
            &&& forall|other: Seq<char>|
                other != name ==> after.queues[other] == #[trigger] registry.queues[other]
            &&& after.exchanges == registry.exchanges
            &&& after.reserved == registry.reserved
        }),
{
}

/// A name that is not known stands for nothing but itself, and a name that is known stands for what is
/// known of it.
pub proof fn unknown_names_are_undeclared(registry: RegistryView, name: Seq<char>)
    ensures
        registry.exchanges.dom().contains(name) ==> registry.exchange(name)
            == registry.exchanges[name],
        !registry.exchanges.dom().contains(name) ==> {
            &&& registry.exchange(name).name == name
            &&& registry.exchange(name).kind is None
            &&& registry.exchange(name).options is None
            &&& registry.exchange(name).arguments is None
            &&& registry.exchange(name).bindings.len() == 0
        },
        registry.queues.dom().contains(name) ==> registry.queue(name) == registry.queues[name],
        !registry.queues.dom().contains(name) ==> {
            &&& registry.queue(name).name == name
            &&& registry.queue(name).options is None
            &&& registry.queue(name).arguments is None
            &&& registry.queue(name).bindings.len() == 0
        },
{
}

/// Forgetting an exchange or a queue takes out that one and nothing else.
pub proof fn forgetting_takes_out_one_name(registry: RegistryView, name: Seq<char>)
    ensures
        registry.without_exchange(name).exchanges == registry.exchanges.remove(name),
        registry.without_exchange(name).queues == registry.queues,
        registry.without_exchange(name).reserved == registry.reserved,
        registry.without_queue(name).queues == registry.queues.remove(name),
        registry.without_queue(name).exchanges == registry.exchanges,
        registry.without_queue(name).reserved == registry.reserved,
{
}

/// A binding is recorded behind those that there are, and nothing else changes.
pub proof fn binding_is_recorded_last(
    exchange: ExchangeView,
    queue: QueueView,
    binding: BindingView,
)
    ensures
        exchange.bound(binding) == (ExchangeView {
            bindings: exchange.bindings.push(binding),
            ..exchange
        }),
        queue.bound(binding) == (QueueView { bindings: queue.bindings.push(binding), ..queue }),
{
}

/// Forgetting a binding keeps every binding whose source differs, whose routing key differs, or whose
/// arguments are not equal to those that are given, in the order that they had. It keeps no other,
/// makes none up, and changes nothing else of the exchange.
pub proof fn forgetting_an_exchange_binding_keeps_the_others(
    exchange: ExchangeView,
    source: Seq<char>,
    routing_key: Seq<char>,
    arguments: TableView,
)
    ensures
        ({
            let after = exchange.unbound(source, routing_key, arguments);
            &&& after == (ExchangeView { bindings: after.bindings, ..exchange })
            &&& after.bindings == exchange.bindings.filter(
                |b: BindingView|
                    b.source != source || b.routing_key != routing_key
                        || !crate::types::table_equal(b.arguments, arguments),
            )
            &&& forall|i: int|
                0 <= i < exchange.bindings.len() && ((#[trigger] exchange.bindings[i]).source != source
                    || exchange.bindings[i].routing_key != routing_key || !crate::types::table_equal(
                    exchange.bindings[i].arguments,
                    arguments,
                )) ==> after.bindings.contains(exchange.bindings[i])
            &&& forall|i: int|
                0 <= i < after.bindings.len() ==> (#[trigger] after.bindings[i]).source != source
                    || after.bindings[i].routing_key != routing_key || !crate::types::table_equal(
                    after.bindings[i].arguments,
                    arguments,
                )
        }),
{
    lemma_bindings_without(exchange.bindings, source, routing_key, arguments);
}

/// Forgetting a binding keeps every binding whose source differs, whose routing key differs, or whose
/// arguments are not equal to those that are given, in the order that they had. It keeps no other,
/// makes none up, and changes nothing else of the queue.
pub proof fn forgetting_a_queue_binding_keeps_the_others(
    queue: QueueView,
    source: Seq<char>,
    routing_key: Seq<char>,
    arguments: TableView,
)
    ensures
        ({
            let after = queue.unbound(source, routing_key, arguments);
            &&& after == (QueueView { bindings: after.bindings, ..queue })
            &&& after.bindings == queue.bindings.filter(
                |b: BindingView|
                    b.source != source || b.routing_key != routing_key
                        || !crate::types::table_equal(b.arguments, arguments),
            )
            &&& forall|i: int|
                0 <= i < queue.bindings.len() && ((#[trigger] queue.bindings[i]).source != source
                    || queue.bindings[i].routing_key != routing_key || !crate::types::table_equal(
                    queue.bindings[i].arguments,
                    arguments,
                )) ==> after.bindings.contains(queue.bindings[i])
            &&& forall|i: int|
                0 <= i < after.bindings.len() ==> (#[trigger] after.bindings[i]).source != source
                    || after.bindings[i].routing_key != routing_key || !crate::types::table_equal(
                    after.bindings[i].arguments,
                    arguments,
                )
        }),
{
    lemma_bindings_without(queue.bindings, source, routing_key, arguments);
}

proof fn lemma_bindings_without(
    bindings: Seq<BindingView>,
    source: Seq<char>,
    routing_key: Seq<char>,
    arguments: TableView,
)
    ensures
        ({
            let after = crate::topology::without_binding(bindings, source, routing_key, arguments);
            &&& after == bindings.filter(
                |b: BindingView|
                    b.source != source || b.routing_key != routing_key
                        || !crate::types::table_equal(b.arguments, arguments),
            )
            &&& forall|i: int|
                0 <= i < bindings.len() && ((#[trigger] bindings[i]).source != source
                    || bindings[i].routing_key != routing_key || !crate::types::table_equal(
                    bindings[i].arguments,
                    arguments,
                )) ==> after.contains(bindings[i])
            &&& forall|i: int|
                0 <= i < after.len() ==> (#[trigger] after[i]).source != source
                    || after[i].routing_key != routing_key || !crate::types::table_equal(
                    after[i].arguments,
                    arguments,
                )
        }),
{
    let described = |b: BindingView| !b.described_by(source, routing_key, arguments);
    let differs = |b: BindingView|
        b.source != source || b.routing_key != routing_key || !crate::types::table_equal(
            b.arguments,
            arguments,
        );
    assert(described =~= differs);
    let after = bindings.filter(differs);
    assert forall|i: int| 0 <= i < bindings.len() && differs(#[trigger] bindings[i]) implies
        after.contains(bindings[i]) by {
        bindings.lemma_filter_contains(differs, i);
    }
    assert forall|i: int| 0 <= i < after.len() implies differs(#[trigger] after[i]) by {
        bindings.lemma_filter_pred(differs, i);
    }
}

/// In contracts a definition of an exchange is what its fields say, one by one.
pub proof fn exchange_is_what_its_fields_say(definition: ExchangeDefinition)
    ensures
        definition@.name == definition.name@,
        definition@.options == definition.options,
        definition.kind is None <==> definition@.kind is None,
        definition.kind matches Some(kind) ==> definition@.kind == Some(kind@),
        definition.arguments is None <==> definition@.arguments is None,
        definition.arguments matches Some(table) ==> definition@.arguments == Some(table@),
        definition@.bindings.len() == definition.bindings@.len(),
        forall|i: int|
            0 <= i < definition.bindings@.len() ==> #[trigger] definition@.bindings[i]
                == definition.bindings@[i]@,
{
}

/// In contracts a definition of a queue is what its fields say, one by one.
pub proof fn queue_is_what_its_fields_say(definition: QueueDefinition)
    ensures
        definition@.name == definition.name@,
        definition@.options == definition.options,
        definition.arguments is None <==> definition@.arguments is None,
        definition.arguments matches Some(table) ==> definition@.arguments == Some(table@),
        definition@.bindings.len() == definition.bindings@.len(),
        forall|i: int|
            0 <= i < definition.bindings@.len() ==> #[trigger] definition@.bindings[i]
                == definition.bindings@[i]@,
{
}

/// In contracts a binding is what its fields say, and a kind of exchange is the kind that it is.
pub proof fn binding_and_kind_are_what_they_say(binding: BindingDefinition, kind: ExchangeKind)
    ensures
        binding@.source == binding.source@,
        binding@.routing_key == binding.routing_key@,
        binding@.arguments == binding.arguments@,
        match kind {
            ExchangeKind::Custom(name) => kind@ == KindView::Custom(name@),
            ExchangeKind::Direct => kind@ == KindView::Direct,
            ExchangeKind::Fanout => kind@ == KindView::Fanout,
            ExchangeKind::Headers => kind@ == KindView::Headers,
            ExchangeKind::Topic => kind@ == KindView::Topic,
        },
{
}

/// In contracts a value is the value that it is, with everything inside it.
pub proof fn value_is_what_it_says(value: AMQPValue)
    ensures
        match value {
            AMQPValue::Boolean(v) => value@ == ValueView::Boolean(v),
            AMQPValue::ShortShortInt(v) => value@ == ValueView::ShortShortInt(v),
            AMQPValue::ShortShortUInt(v) => value@ == ValueView::ShortShortUInt(v),
            AMQPValue::ShortInt(v) => value@ == ValueView::ShortInt(v),
            AMQPValue::ShortUInt(v) => value@ == ValueView::ShortUInt(v),
            AMQPValue::LongInt(v) => value@ == ValueView::LongInt(v),
            AMQPValue::LongUInt(v) => value@ == ValueView::LongUInt(v),
            AMQPValue::LongLongInt(v) => value@ == ValueView::LongLongInt(v),
            AMQPValue::Float(v) => value@ == ValueView::Float(v),
            AMQPValue::Double(v) => value@ == ValueView::Double(v),
            AMQPValue::DecimalValue(v) => value@ == ValueView::DecimalValue(v),
            AMQPValue::ShortString(v) => value@ == ValueView::ShortString(v@),
            AMQPValue::LongString(v) => value@ == ValueView::LongString(v@),
            AMQPValue::FieldArray(v) => {
                &&& value@ matches ValueView::FieldArray(values)
                &&& values.len() == v@.len()
                &&& forall|i: int| 0 <= i < v@.len() ==> #[trigger] values[i] == v@[i]@
            },
            AMQPValue::Timestamp(v) => value@ == ValueView::Timestamp(v),
            AMQPValue::FieldTable(v) => value@ == ValueView::FieldTable(v@),
            AMQPValue::ByteArray(v) => value@ == ValueView::ByteArray(v@),
            AMQPValue::Void => value@ == ValueView::Void,
        },
{
}

/// Giving a name a value gives it that value and no other name another one: the name has the value
/// afterwards, every other entry stays where it was, and no entry is lost.
pub proof fn name_has_the_value_it_was_given(table: TableView, name: Seq<char>, value: ValueView)
    requires
        crate::types::names_distinct(table),
    ensures
        ({
            let after = crate::types::with_entry(table, name, value);
            &&& exists|i: int| 0 <= i < after.len() && #[trigger] after[i] == (name, value)
            &&& forall|i: int|
                0 <= i < after.len() && (#[trigger] after[i]).0 == name ==> after[i].1 == value
            &&& forall|i: int|
                0 <= i < table.len() && (#[trigger] table[i]).0 != name ==> after[i] == table[i]
            &&& after.len() == table.len() + (if exists|i: int|
                0 <= i < table.len() && (#[trigger] table[i]).0 == name {
                0int
            } else {
                1int
            })
        }),
{
    let after = crate::types::with_entry(table, name, value);
    if crate::types::has_name(table, name) {
        let i = choose|i: int| 0 <= i < table.len() && #[trigger] table[i].0 == name;
        assert(after[i] == (name, value));
        assert(table[i].0 == name);
    } else {
        assert(after[table.len() as int] == (name, value));
        assert forall|i: int| 0 <= i < table.len() implies (#[trigger] table[i]).0 != name by {
            if table[i].0 == name {
                assert(crate::types::has_name(table, name));
            }
        }
    }
}

/// No name occurs twice in a table that is in order, and one that occurs is found.
pub proof fn names_occur_once(table: TableView, i: int, j: int)
    requires
        0 <= i < table.len(),
        0 <= j < table.len(),
    ensures
        crate::types::has_name(table, table[i].0),
        crate::types::names_distinct(table) && table[i].0 == table[j].0 ==> i == j,
        forall|name: Seq<char>| #[trigger]
            crate::types::has_name(table, name) ==> exists|k: int|
                0 <= k < table.len() && (#[trigger] table[k]).0 == name,
{
    assert(table[i].0 == table[i].0);
    if i < j {
        assert(crate::types::names_distinct(table) ==> table[i].0 != table[j].0);
    } else if j < i {
        assert(crate::types::names_distinct(table) ==> table[j].0 != table[i].0);
    }
    assert forall|name: Seq<char>| #[trigger] crate::types::has_name(table, name) implies exists|
        k: int,
    |
        0 <= k < table.len() && (#[trigger] table[k]).0 == name by {
        let k = choose|k: int| 0 <= k < table.len() && #[trigger] table[k].0 == name;
        assert(table[k].0 == name);
    }
}

/// Two binary32 numbers are equal if their bits are and they are no NaN, or if both are zero, with
/// whatever sign. No others are.
pub proof fn single_numbers_compare_by_value(a: u32, b: u32)
    ensures
        ({
            let (m, n) = (a % 0x8000_0000, b % 0x8000_0000);
            crate::types::float_equal(a, b) <==> {
                ||| a == b && m <= 0x7f80_0000
                ||| m == 0 && n == 0
            }
        }),
{
}

/// Two binary64 numbers are equal if their bits are and they are no NaN, or if both are zero, with
/// whatever sign. No others are.
pub proof fn double_numbers_compare_by_value(a: u64, b: u64)
    ensures
        ({
            let (m, n) = (a % 0x8000_0000_0000_0000, b % 0x8000_0000_0000_0000);
            crate::types::double_equal(a, b) <==> {
                ||| a == b && m <= 0x7ff0_0000_0000_0000
                ||| m == 0 && n == 0
            }
        }),
{
}

/// Values of different kinds never compare equal. Numbers compare by value, lists element by element,
/// tables name by name, and everything else only with itself.
pub proof fn values_compare_by_what_they_hold(a: ValueView, b: ValueView)
    ensures
        match a {
            ValueView::Float(x) => crate::types::value_equal(a, b) <==> (b matches ValueView::Float(
                y,
            ) && crate::types::float_equal(x, y)),
            ValueView::Double(x) => crate::types::value_equal(a, b) <==> (
            b matches ValueView::Double(y) && crate::types::double_equal(x, y)),
            ValueView::FieldArray(x) => crate::types::value_equal(a, b) <==> (
            b matches ValueView::FieldArray(y) && x.len() == y.len() && forall|i: int|
                0 <= i < x.len() ==> crate::types::value_equal(#[trigger] x[i], y[i])),
            ValueView::FieldTable(x) => crate::types::value_equal(a, b) <==> (
            b matches ValueView::FieldTable(y) && crate::types::table_equal(x, y)),
            _ => crate::types::value_equal(a, b) <==> a == b,
        },
{
    if let (ValueView::FieldArray(x), ValueView::FieldArray(y)) = (a, b) {
        assert(crate::types::value_equal(a, b) == crate::types::array_equal(x, y));
    }
}

/// Two equal tables have equally many entries, and every name of one has an equal value in the other,
/// wherever it stands.
pub proof fn equal_tables_agree_on_every_name(a: TableView, b: TableView, i: int)
    requires
        crate::types::table_equal(a, b),
        0 <= i < a.len(),
    ensures
        a.len() == b.len(),
        exists|j: int|
            #![trigger b[j]]
            0 <= j < b.len() && b[j].0 == a[i].0 && crate::types::value_equal(a[i].1, b[j].1),
{
    assert(crate::types::gives(b, a[i]));
}

/// Two tables with equally many entries are equal if every name of one has an equal value in the other,
/// in whatever place.
pub proof fn tables_that_agree_on_every_name_are_equal(a: TableView, b: TableView, places: Seq<int>)
    requires
        a.len() == b.len(),
        places.len() == a.len(),
        forall|i: int|
            #![trigger a[i]]
            0 <= i < a.len() ==> 0 <= places[i] < b.len() && b[places[i]].0 == a[i].0
                && crate::types::value_equal(a[i].1, b[places[i]].1),
    ensures
        crate::types::table_equal(a, b),
{
    assert forall|i: int| #![trigger a[i]] 0 <= i < a.len() implies crate::types::gives(
        b,
        a[i],
    ) by {
        assert(b[places[i]].0 == a[i].0);
    }
}

/// An event of one kind makes that kind come in and no other, and looking at the events makes reading
/// and writing worth trying where they came in, and leaves none.
pub proof fn events_change_their_own_flags(state: SocketView, event: SocketEvent)
    ensures
        state.sent(event).readable == state.readable,
        state.sent(event).writable == state.writable,
        state.sent(event).pending.readable == (state.pending.readable || event is Readable),
        state.sent(event).pending.writable == (state.pending.writable || event is Writable),
        state.sent(event).pending.wake == (state.pending.wake || event is Wake),
        state.sent(event).pending.any(),
        state.applied().readable == (state.readable || state.pending.readable),
        state.applied().writable == (state.writable || state.pending.writable),
        !state.applied().pending.any(),
        !PendingView::none().readable && !PendingView::none().writable && !PendingView::none().wake,
        state.pending.any() <==> state.pending.readable || state.pending.writable
            || state.pending.wake,
        SocketView::fresh().readable && SocketView::fresh().writable,
        !SocketView::fresh().pending.any(),
{
}

/// A task that comes in counts one, unless the scope was told to stop; one that goes counts one less;
/// being told to stop counts nothing and is never taken back.
pub proof fn scope_counts_by_ones(scope: ScopeView)
    ensures
        scope.wrapped().stopped == scope.stopped,
        scope.wrapped().active == scope.active + (if scope.stopped {
            0int
        } else {
            1int
        }),
        scope.halted().stopped,
        scope.halted().active == scope.active,
        scope.released().stopped == scope.stopped,
        scope.active > 0 ==> scope.released().active == scope.active - 1,
        !ScopeView::fresh().stopped && ScopeView::fresh().active == 0,
{
}

/// Nothing has gone into a channel at first, and what goes in is behind everything that went in before;
/// what does not go in changes nothing.
pub proof fn taken_events_line_up(tried: Seq<(Event, Handover)>, event: Event)
    ensures
        crate::channel::taken(Seq::empty()) == Seq::<Event>::empty(),
        crate::channel::taken(tried.push((event, Handover::Taken))) == crate::channel::taken(
            tried,
        ).push(event),
        crate::channel::taken(tried.push((event, Handover::Full))) == crate::channel::taken(tried),
        crate::channel::taken(tried.push((event, Handover::Gone))) == crate::channel::taken(tried),
{
    assert(tried.push((event, Handover::Taken)).drop_last() =~= tried);
    assert(tried.push((event, Handover::Full)).drop_last() =~= tried);
    assert(tried.push((event, Handover::Gone)).drop_last() =~= tried);
}

/// What is known of a listener goes by what was tried on it.
pub proof fn listener_goes_by_what_was_tried(listener: ListenerView, channel: int)
    ensures
        listener.gone() <==> listener.tried.len() > 0 && listener.tried.last().1
            == Handover::Gone,
        listener.received() == crate::channel::taken(listener.tried),
        listener.has_room() <==> crate::channel::taken(listener.tried).len() < listener.capacity,
        ListenerView::fresh(channel).channel == channel,
        ListenerView::fresh(channel).capacity == 64,
        ListenerView::fresh(channel).tried.len() == 0,
{
}

/// An event is tried on every listener that has not turned out to be gone, once, and on no other. It
/// is never lost for want of room on a listener that has taken fewer than fit. The first loss on any
/// listener is reported, and no other.
pub proof fn event_is_tried_on_every_listener(
    before: EventsSender,
    event: Event,
    after: EventsSender,
    report: Option<Error>,
)
    requires
        before.offered(event, after, report),
    ensures
        after.listeners().len() == before.listeners().len(),
        forall|i: int|
            0 <= i < before.listeners().len() ==> {
                let (was, is) = (#[trigger] before.listeners()[i], after.listeners()[i]);
                &&& is.channel == was.channel
                &&& is.capacity == was.capacity
                &&& if was.tried.len() > 0 && was.tried.last().1 is Gone {
                    is.tried == was.tried
                } else {
                    &&& is.tried.len() == was.tried.len() + 1
                    &&& is.tried.drop_last() == was.tried
                    &&& is.tried.last().0 == event
                    &&& crate::channel::taken(was.tried).len() < was.capacity
                        ==> is.tried.last().1 !is Full
                }
            },
        ({
            let lost = exists|i: int|
                0 <= i < before.listeners().len() && after.listeners()[i].tried.len() > (
                #[trigger] before.listeners()[i]).tried.len()
                    && after.listeners()[i].tried.last().1 is Full;
            &&& after.overflowed() <==> before.overflowed() || lost
            &&& report is Some <==> lost && !before.overflowed()
        }),
        report matches Some(error) ==> error.spec_kind() == ErrorKind::ResourceLimitExceeded,
{
    assert forall|i: int| 0 <= i < before.listeners().len() implies (
    #[trigger] before.listeners()[i]).offered(event, after.listeners()[i]) by {}
    assert forall|i: int| 0 <= i < before.listeners().len() implies {
        let (was, is) = (#[trigger] before.listeners()[i], after.listeners()[i]);
        !(was.tried.len() > 0 && was.tried.last().1 is Gone) ==> is.tried.drop_last() == was.tried
    } by {
        let (was, is) = (before.listeners()[i], after.listeners()[i]);
        assert(was.offered(event, is));
        if !was.gone() {
            assert(is.tried.drop_last() =~= was.tried);
        }
    }
    if before.lost(after) {
        let i = choose|i: int|
            0 <= i < before.listeners().len() && (#[trigger] before.listeners()[i]).lost(
                after.listeners()[i],
            );
        assert(after.listeners()[i].tried.len() > before.listeners()[i].tried.len());
    }
    if exists|i: int|
        0 <= i < before.listeners().len() && after.listeners()[i].tried.len() > (
        #[trigger] before.listeners()[i]).tried.len() && after.listeners()[i].tried.last().1
            is Full {
        let i = choose|i: int|
            0 <= i < before.listeners().len() && after.listeners()[i].tried.len() > (
            #[trigger] before.listeners()[i]).tried.len() && after.listeners()[i].tried.last().1
                is Full;
        assert(before.listeners()[i].lost(after.listeners()[i]));
    }
}

/// Starting to listen loses no listener that is still there: every one that has not turned out to be
/// gone stays, with the same channel and the same history, and in the same order.
pub proof fn listening_loses_no_listener(listeners: Seq<ListenerView>)
    ensures
        forall|i: int|
            0 <= i < listeners.len() && !((#[trigger] listeners[i]).tried.len() > 0
                && listeners[i].tried.last().1 is Gone) ==> crate::events::remaining(
                listeners,
            ).contains(listeners[i]),
        forall|i: int|
            0 <= i < crate::events::remaining(listeners).len() ==> !((
            #[trigger] crate::events::remaining(listeners)[i]).tried.len() > 0
                && crate::events::remaining(listeners)[i].tried.last().1 is Gone),
        (forall|i: int|
            0 <= i < listeners.len() ==> !((#[trigger] listeners[i]).tried.len() > 0
                && listeners[i].tried.last().1 is Gone)) ==> crate::events::remaining(listeners)
            == listeners,
        crate::events::remaining(listeners).len() <= listeners.len(),
{
    let here = |listener: ListenerView| !listener.gone();
    let left = listeners.filter(here);
    listeners.lemma_filter_len(here);
    assert forall|i: int|
        0 <= i < listeners.len() && !((#[trigger] listeners[i]).tried.len() > 0
            && listeners[i].tried.last().1 is Gone) implies left.contains(listeners[i]) by {
        listeners.lemma_filter_contains(here, i);
    }
    assert forall|i: int| 0 <= i < left.len() implies here(#[trigger] left[i]) by {
        listeners.lemma_filter_pred(here, i);
    }
    if forall|i: int|
        0 <= i < listeners.len() ==> !((#[trigger] listeners[i]).tried.len() > 0
            && listeners[i].tried.last().1 is Gone) {
        assert forall|i: int| 0 <= i < listeners.len() implies here(#[trigger] listeners[i]) by {}
        crate::laws::lemma_filter_keeps_all(listeners, here);
    }
}

/// A listener that looks is told of lost events once, as a limit that was reached.
pub proof fn looking_tells_of_a_loss_once(
    before: OverflowNotice,
    lost: bool,
    after: OverflowNotice,
    told: Option<Event>,
)
    requires
        before.looked(lost, after, told),
    ensures
        after.given() <==> before.given() || lost,
        told is Some <==> lost && !before.given(),
        told matches Some(event) ==> (event matches Event::Error(error) && error.spec_kind()
            == ErrorKind::ResourceLimitExceeded),
{
}

} // verus!
