//! What holds of several operations taken together.
use vstd::prelude::*;

use crate::connection::{ConnectorControl, StopStep};
use crate::error::Error;
use crate::events::{Event, EventsSender, ListenerView, OverflowNotice};
use crate::limits::Budget;
use crate::registry::RegistryView;
use crate::task_scope::{Guard, ScopeView, ScopedFuture};
use crate::topology::{
    BindingView, ExchangeDeclareOptions, ExchangeDefinition, ExchangeView, KindView,
    QueueDeclareOptions, QueueDefinition, QueueView,
};
use crate::types::{TableView, ValueView};

verus! {

/// Recording an exchange changes what the registry is charged for by exactly the difference between
/// the exchange and the one that stood under its name.
pub proof fn exchange_is_charged_once(registry: RegistryView, exchange: ExchangeView)
    requires
        registry.named(),
    ensures
        registry.with_exchange(exchange).size() == registry.without_exchange(exchange.name).size()
            + crate::registry::exchange_size(exchange),
        registry.exchanges.dom().contains(exchange.name) ==> registry.size()
            == registry.without_exchange(exchange.name).size() + crate::registry::exchange_size(
            registry.exchanges[exchange.name],
        ),
        !registry.exchanges.dom().contains(exchange.name) ==> registry.size()
            == registry.without_exchange(exchange.name).size(),
{
    let rest = registry.exchanges.remove(exchange.name);
    crate::definitions::lemma_total_size_insert::<ExchangeDefinition>(
        rest,
        exchange.name,
        exchange,
    );
    assert(rest.insert(exchange.name, exchange) =~= registry.exchanges.insert(
        exchange.name,
        exchange,
    ));
    if registry.exchanges.dom().contains(exchange.name) {
        crate::definitions::lemma_total_size_remove::<ExchangeDefinition>(
            registry.exchanges,
            exchange.name,
        );
    } else {
        assert(rest =~= registry.exchanges);
    }
}

/// Recording a queue changes what the registry is charged for by exactly the difference between the
/// queue and the one that stood under its name.
pub proof fn queue_is_charged_once(registry: RegistryView, queue: QueueView)
    requires
        registry.named(),
    ensures
        registry.with_queue(queue).size() == registry.without_queue(queue.name).size()
            + crate::registry::queue_size(queue),
        registry.queues.dom().contains(queue.name) ==> registry.size() == registry.without_queue(
            queue.name,
        ).size() + crate::registry::queue_size(registry.queues[queue.name]),
        !registry.queues.dom().contains(queue.name) ==> registry.size() == registry.without_queue(
            queue.name,
        ).size(),
{
    let rest = registry.queues.remove(queue.name);
    crate::definitions::lemma_total_size_insert::<QueueDefinition>(rest, queue.name, queue);
    assert(rest.insert(queue.name, queue) =~= registry.queues.insert(queue.name, queue));
    if registry.queues.dom().contains(queue.name) {
        crate::definitions::lemma_total_size_remove::<QueueDefinition>(registry.queues, queue.name);
    } else {
        assert(rest =~= registry.queues);
    }
}

/// Forgetting an exchange that was not known before undoes its declaration.
pub proof fn deregister_undoes_register_exchange(
    registry: RegistryView,
    name: Seq<char>,
    kind: KindView,
    options: ExchangeDeclareOptions,
    arguments: TableView,
)
    requires
        !registry.exchanges.dom().contains(name),
    ensures
        registry.with_exchange(
            registry.exchange(name).declared_as(kind, options, arguments),
        ).without_exchange(name) == registry,
{
    assert(registry.with_exchange(
        registry.exchange(name).declared_as(kind, options, arguments),
    ).without_exchange(name).exchanges =~= registry.exchanges);
}

/// Forgetting a queue that was not known before undoes its declaration.
pub proof fn deregister_undoes_register_queue(
    registry: RegistryView,
    name: Seq<char>,
    options: QueueDeclareOptions,
    arguments: TableView,
)
    requires
        !registry.queues.dom().contains(name),
    ensures
        registry.with_queue(registry.queue(name).declared_as(options, arguments)).without_queue(
            name,
        ) == registry,
{
    assert(registry.with_queue(
        registry.queue(name).declared_as(options, arguments),
    ).without_queue(name).queues =~= registry.queues);
}

/// Is there no number in a value that does not equal itself?
pub open spec fn comparable(value: ValueView) -> bool
    decreases value,
{
    match value {
        ValueView::Float(bits) => crate::types::float_equal(bits, bits),
        ValueView::Double(bits) => crate::types::double_equal(bits, bits),
        ValueView::FieldArray(values) => comparable_array(values),
        ValueView::FieldTable(table) => comparable_table(table),
        _ => true,
    }
}

/// Is there no number in a list of values that does not equal itself?
pub open spec fn comparable_array(values: Seq<ValueView>) -> bool
    decreases values,
{
    forall|i: int| #![trigger values[i]] 0 <= i < values.len() ==> comparable(values[i])
}

/// Is there no number in a table that does not equal itself?
pub open spec fn comparable_table(table: TableView) -> bool
    decreases table,
{
    forall|i: int| #![trigger table[i]] 0 <= i < table.len() ==> comparable(table[i].1)
}

/// A value equals itself, unless there is a number in it that does not.
proof fn lemma_value_equals_itself(value: ValueView)
    requires
        comparable(value),
    ensures
        crate::types::value_equal(value, value),
    decreases value,
{
    match value {
        ValueView::FieldArray(values) => {
            assert forall|i: int| #![trigger values[i]] 0 <= i < values.len() implies {
                crate::types::value_equal(values[i], values[i])
            } by {
                lemma_value_equals_itself(values[i]);
            }
        },
        ValueView::FieldTable(table) => {
            table_equals_itself(table);
        },
        _ => {},
    }
}

/// A table equals itself, unless there is a number in it that does not.
pub proof fn table_equals_itself(table: TableView)
    requires
        comparable_table(table),
    ensures
        crate::types::table_equal(table, table),
    decreases table,
{
    assert forall|i: int| #![trigger table[i]] 0 <= i < table.len() implies crate::types::gives(
        table,
        table[i],
    ) by {
        lemma_value_equals_itself(table[i].1);
    }
}

/// Some bindings are what is left of them when a binding is added and then forgotten, as long as none
/// of them is described in the same way.
proof fn lemma_unbind_undoes_bind(bindings: Seq<BindingView>, binding: BindingView)
    requires
        crate::types::table_equal(binding.arguments, binding.arguments),
        forall|i: int|
            0 <= i < bindings.len() ==> !(#[trigger] bindings[i]).described_by(
                binding.source,
                binding.routing_key,
                binding.arguments,
            ),
    ensures
        crate::topology::without_binding(
            bindings.push(binding),
            binding.source,
            binding.routing_key,
            binding.arguments,
        ) == bindings,
{
    let keep = |b: BindingView|
        !b.described_by(binding.source, binding.routing_key, binding.arguments);
    assert(bindings.push(binding).drop_last() =~= bindings);
    assert(bindings.push(binding).filter(keep) =~= bindings.filter(keep)) by {
        reveal(Seq::filter);
    }
    lemma_filter_keeps_all(bindings, keep);
}

/// Filtering keeps a sequence all of whose elements pass.
pub(crate) proof fn lemma_filter_keeps_all<A>(items: Seq<A>, keep: spec_fn(A) -> bool)
    requires
        forall|i: int| 0 <= i < items.len() ==> keep(#[trigger] items[i]),
    ensures
        items.filter(keep) == items,
    decreases items.len(),
{
    reveal(Seq::filter);
    if items.len() > 0 {
        let rest = items.drop_last();
        assert forall|i: int| 0 <= i < rest.len() implies keep(#[trigger] rest[i]) by {
            assert(rest[i] == items[i]);
        }
        lemma_filter_keeps_all(rest, keep);
        assert(keep(items[items.len() - 1]));
        assert(rest.push(items.last()) =~= items);
    }
}

/// Forgetting a binding to an exchange undoes recording it, if its arguments equal themselves and no
/// earlier binding is described in the same way.
pub proof fn unbind_undoes_bind_exchange(exchange: ExchangeView, binding: BindingView)
    requires
        crate::types::table_equal(binding.arguments, binding.arguments),
        forall|i: int|
            0 <= i < exchange.bindings.len() ==> !(#[trigger] exchange.bindings[i]).described_by(
                binding.source,
                binding.routing_key,
                binding.arguments,
            ),
    ensures
        exchange.bound(binding).unbound(binding.source, binding.routing_key, binding.arguments)
            == exchange,
{
    lemma_unbind_undoes_bind(exchange.bindings, binding);
}

/// Forgetting a binding to a queue undoes recording it, if its arguments equal themselves and no
/// earlier binding is described in the same way.
pub proof fn unbind_undoes_bind_queue(queue: QueueView, binding: BindingView)
    requires
        crate::types::table_equal(binding.arguments, binding.arguments),
        forall|i: int|
            0 <= i < queue.bindings.len() ==> !(#[trigger] queue.bindings[i]).described_by(
                binding.source,
                binding.routing_key,
                binding.arguments,
            ),
    ensures
        queue.bound(binding).unbound(binding.source, binding.routing_key, binding.arguments)
            == queue,
{
    lemma_unbind_undoes_bind(queue.bindings, binding);
}

/// Declaring an exchange or a queue keeps its bindings.
pub proof fn declaring_keeps_bindings(
    exchange: ExchangeView,
    queue: QueueView,
    kind: KindView,
    exchange_options: ExchangeDeclareOptions,
    queue_options: QueueDeclareOptions,
    arguments: TableView,
)
    ensures
        exchange.declared_as(kind, exchange_options, arguments).bindings == exchange.bindings,
        queue.declared_as(queue_options, arguments).bindings == queue.bindings,
{
}

/// A refused declaration of an exchange that was not known before can be withdrawn: when it is
/// forgotten again, registry and budget are what they were.
pub proof fn refused_exchange_can_be_withdrawn(
    before: RegistryView,
    budget: Budget,
    exchange: ExchangeView,
    refused: RegistryView,
    then: Budget,
    after: RegistryView,
    left: Budget,
)
    requires
        budget.well_formed(),
        before.reserved == Some(before.size()),
        budget.holds(before.size()),
        !before.exchanges.dom().contains(exchange.name),
        !before.with_exchange(exchange).within(Some(budget)),
        crate::registry::settled(
            before.with_exchange(exchange),
            Some(budget),
            refused,
            Some(then),
        ),
        crate::registry::settled(
            refused.without_exchange(exchange.name),
            Some(then),
            after,
            Some(left),
        ),
    ensures
        after == before,
        left.limits() == budget.limits(),
        left.outstanding() == budget.outstanding(),
{
    assert(refused.without_exchange(exchange.name).exchanges =~= before.exchanges);
    assert(refused.without_exchange(exchange.name) == before);
    crate::limits::retained_stays_within_limits(budget);
    assert(left.outstanding() =~= budget.outstanding());
}

/// A refused declaration of a queue that was not known before can be withdrawn: when it is forgotten
/// again, registry and budget are what they were.
pub proof fn refused_queue_can_be_withdrawn(
    before: RegistryView,
    budget: Budget,
    queue: QueueView,
    refused: RegistryView,
    then: Budget,
    after: RegistryView,
    left: Budget,
)
    requires
        budget.well_formed(),
        before.reserved == Some(before.size()),
        budget.holds(before.size()),
        !before.queues.dom().contains(queue.name),
        !before.with_queue(queue).within(Some(budget)),
        crate::registry::settled(before.with_queue(queue), Some(budget), refused, Some(then)),
        crate::registry::settled(
            refused.without_queue(queue.name),
            Some(then),
            after,
            Some(left),
        ),
    ensures
        after == before,
        left.limits() == budget.limits(),
        left.outstanding() == budget.outstanding(),
{
    assert(refused.without_queue(queue.name).queues =~= before.queues);
    assert(refused.without_queue(queue.name) == before);
    crate::limits::retained_stays_within_limits(budget);
    assert(left.outstanding() =~= budget.outstanding());
}

/// What a table is charged for does not depend on the order of its entries.
pub proof fn charge_ignores_order(a: TableView, b: TableView)
    requires
        a.to_multiset() == b.to_multiset(),
    ensures
        crate::registry::table_size(a) == crate::registry::table_size(b),
    decreases a.len(),
{
    a.to_multiset_ensures();
    b.to_multiset_ensures();
    if a.len() > 0 {
        let entry = a.last();
        assert(a.to_multiset().contains(entry));
        assert(b.contains(entry));
        let i = choose|i: int| 0 <= i < b.len() && b[i] == entry;
        let rest = b.remove(i);
        assert(a.drop_last() =~= a.remove(a.len() - 1));
        assert(a.drop_last().to_multiset() =~= rest.to_multiset());
        charge_ignores_order(a.drop_last(), rest);
        lemma_charge_of_entry(b, i);
    }
}

/// Taking any entry out of a table takes what it is charged for off the table.
proof fn lemma_charge_of_entry(table: TableView, i: int)
    requires
        0 <= i < table.len(),
    ensures
        crate::registry::table_size(table) == crate::registry::table_size(table.remove(i)) + 128
            + crate::registry::text_bytes(table[i].0) * 2 + crate::registry::value_size(table[i].1),
    decreases table.len(),
{
    if i == table.len() - 1 {
        assert(table.remove(i) =~= table.drop_last());
    } else {
        let rest = table.drop_last();
        lemma_charge_of_entry(rest, i);
        assert(table.remove(i).drop_last() =~= rest.remove(i));
        assert(table.remove(i).last() == table.last());
    }
}

/// What can happen to the tasks of a connection.
pub enum ScopeStep {
    /// A task comes in.
    Wrap,
    /// The tasks are told to stop.
    Stop,
    /// A task is gone.
    Release,
}

/// The scope after one step.
pub open spec fn stepped(scope: ScopeView, step: ScopeStep) -> ScopeView {
    match step {
        ScopeStep::Wrap => scope.wrapped(),
        ScopeStep::Stop => scope.halted(),
        ScopeStep::Release => scope.released(),
    }
}

/// The scope after some steps, the last of which is the last of the sequence.
pub open spec fn scope_after(scope: ScopeView, steps: Seq<ScopeStep>) -> ScopeView
    decreases steps.len(),
{
    if steps.len() == 0 {
        scope
    } else {
        stepped(scope_after(scope, steps.drop_last()), steps.last())
    }
}

/// Can these steps happen: is there a task whenever one goes?
pub open spec fn possible(scope: ScopeView, steps: Seq<ScopeStep>) -> bool
    decreases steps.len(),
{
    steps.len() > 0 ==> {
        &&& possible(scope, steps.drop_last())
        &&& steps.last() is Release ==> scope_after(scope, steps.drop_last()).active > 0
    }
}

/// The number of tasks that come in before the scope is told to stop.
pub open spec fn admitted(steps: Seq<ScopeStep>) -> nat
    decreases steps.len(),
{
    if steps.len() == 0 {
        0
    } else if steps.last() is Wrap && !steps.contains(ScopeStep::Stop) {
        admitted(steps.drop_last()) + 1
    } else {
        admitted(steps.drop_last())
    }
}

/// The number of tasks that go.
pub open spec fn gone(steps: Seq<ScopeStep>) -> nat
    decreases steps.len(),
{
    if steps.len() == 0 {
        0
    } else if steps.last() is Release {
        gone(steps.drop_last()) + 1
    } else {
        gone(steps.drop_last())
    }
}

/// A new scope counts the tasks that came in before it was told to stop and are not gone yet, and it
/// is stopped once it has been told to stop.
pub proof fn scope_counts_live_tasks(steps: Seq<ScopeStep>)
    requires
        possible(ScopeView::fresh(), steps),
    ensures
        scope_after(ScopeView::fresh(), steps).active == admitted(steps) - gone(steps),
        scope_after(ScopeView::fresh(), steps).stopped == steps.contains(ScopeStep::Stop),
    decreases steps.len(),
{
    if steps.len() > 0 {
        let earlier = steps.drop_last();
        scope_counts_live_tasks(earlier);
        assert(steps =~= earlier.push(steps.last()));
        if earlier.contains(ScopeStep::Stop) {
            let i = choose|i: int| 0 <= i < earlier.len() && earlier[i] == ScopeStep::Stop;
            assert(steps[i] == ScopeStep::Stop);
        }
        if steps.contains(ScopeStep::Stop) && steps.last() !is Stop {
            let i = choose|i: int| 0 <= i < steps.len() && steps[i] == ScopeStep::Stop;
            assert(i < earlier.len());
            assert(earlier[i] == ScopeStep::Stop);
        }
        if steps.last() is Stop {
            assert(steps[steps.len() - 1] == ScopeStep::Stop);
        }
    }
}

/// Once a scope has been told to stop, its tasks only become fewer, and it stays stopped: whatever
/// happens, a scope that has been told to stop and is drained stays drained.
pub proof fn stopped_scope_only_drains(scope: ScopeView, steps: Seq<ScopeStep>)
    requires
        scope.stopped,
        possible(scope, steps),
    ensures
        scope_after(scope, steps).stopped,
        scope_after(scope, steps).active <= scope.active,
    decreases steps.len(),
{
    if steps.len() > 0 {
        stopped_scope_only_drains(scope, steps.drop_last());
    }
}

/// Once a scope that was told to stop has no task left, so that waiting for its tasks comes to an end,
/// it never has one again, whatever is asked of it.
pub proof fn drained_scope_stays_drained(scope: ScopeView, steps: Seq<ScopeStep>)
    requires
        scope.stopped,
        scope.active == 0,
        possible(scope, steps),
    ensures
        scope_after(scope, steps) == scope,
{
    stopped_scope_only_drains(scope, steps);
}

/// One event was offered after the other: what became of the sender, and what was reported.
pub open spec fn offers(
    senders: Seq<EventsSender>,
    events: Seq<Event>,
    reports: Seq<Option<Error>>,
) -> bool {
    &&& senders.len() == events.len() + 1
    &&& reports.len() == events.len()
    &&& forall|i: int|
        0 <= i < events.len() ==> senders[i].offered(
            #[trigger] events[i],
            senders[i + 1],
            reports[i],
        )
}

/// An overflow stays.
proof fn lemma_overflow_stays(
    senders: Seq<EventsSender>,
    events: Seq<Event>,
    reports: Seq<Option<Error>>,
    i: int,
    j: int,
)
    requires
        offers(senders, events, reports),
        0 <= i <= j < senders.len(),
        senders[i].overflowed(),
    ensures
        senders[j].overflowed(),
    decreases j - i,
{
    if i < j {
        assert(senders[i].offered(events[i], senders[i + 1], reports[i]));
        lemma_overflow_stays(senders, events, reports, i + 1, j);
    }
}

/// However many events are lost, at most one of them is reported.
pub proof fn overflow_is_reported_once(
    senders: Seq<EventsSender>,
    events: Seq<Event>,
    reports: Seq<Option<Error>>,
    i: int,
    j: int,
)
    requires
        offers(senders, events, reports),
        0 <= i < j < events.len(),
        reports[i] is Some,
    ensures
        reports[j] is None,
{
    assert(senders[i].offered(events[i], senders[i + 1], reports[i]));
    lemma_overflow_stays(senders, events, reports, i + 1, j);
    assert(senders[j].offered(events[j], senders[j + 1], reports[j]));
}

/// The listeners stay the same ones while events are offered.
proof fn lemma_listeners_stay(
    senders: Seq<EventsSender>,
    events: Seq<Event>,
    reports: Seq<Option<Error>>,
    i: int,
)
    requires
        offers(senders, events, reports),
        0 <= i < senders.len(),
    ensures
        senders[i].listeners().len() == senders[0].listeners().len(),
        forall|k: int|
            0 <= k < senders[0].listeners().len() ==> (#[trigger] senders[i].listeners()[k]).channel
                == senders[0].listeners()[k].channel && senders[i].listeners()[k].capacity
                == senders[0].listeners()[k].capacity,
    decreases i,
{
    if i > 0 {
        lemma_listeners_stay(senders, events, reports, i - 1);
        assert(senders[i - 1].offered(events[i - 1], senders[i], reports[i - 1]));
        assert forall|k: int| 0 <= k < senders[0].listeners().len() implies (
        #[trigger] senders[i].listeners()[k]).channel == senders[0].listeners()[k].channel
            && senders[i].listeners()[k].capacity == senders[0].listeners()[k].capacity by {
            assert(senders[i - 1].listeners()[k].offered(
                events[i - 1],
                senders[i].listeners()[k],
            ));
        }
    }
}

/// What has been handed to a listener grows by the event that is offered to it or not at all.
proof fn lemma_received(before: ListenerView, event: Event, after: ListenerView)
    requires
        before.offered(event, after),
    ensures
        after.received() == if !before.gone() && after.tried.last().1 is Taken {
            before.received().push(event)
        } else {
            before.received()
        },
{
    if !before.gone() {
        assert(after.tried.drop_last() =~= before.tried);
    }
}

/// What has been handed to a listener stays handed to it, in the same order.
pub proof fn sent_events_keep_their_order(
    senders: Seq<EventsSender>,
    events: Seq<Event>,
    reports: Seq<Option<Error>>,
    i: int,
    j: int,
    k: int,
)
    requires
        offers(senders, events, reports),
        0 <= i <= j < senders.len(),
        0 <= k < senders[0].listeners().len(),
    ensures
        senders[i].listeners()[k].received().is_prefix_of(senders[j].listeners()[k].received()),
    decreases j - i,
{
    if i < j {
        lemma_listeners_stay(senders, events, reports, i);
        assert(senders[i].offered(events[i], senders[i + 1], reports[i]));
        let (before, after) = (senders[i].listeners()[k], senders[i + 1].listeners()[k]);
        assert(before.offered(events[i], after));
        lemma_received(before, events[i], after);
        sent_events_keep_their_order(senders, events, reports, i + 1, j, k);
    }
}

/// An event fans out to the listeners: each of them that is still there when the event is tried on
/// it, and that has room, has the event handed to it, whatever becomes of the others.
pub proof fn event_fans_out(
    before: EventsSender,
    event: Event,
    after: EventsSender,
    report: Option<Error>,
)
    requires
        before.offered(event, after, report),
    ensures
        forall|k: int|
            0 <= k < before.listeners().len() && before.listeners()[k].has_room() && !(
            #[trigger] after.listeners()[k]).gone() ==> after.listeners()[k].received()
                == before.listeners()[k].received().push(event),
{
    assert forall|k: int|
        0 <= k < before.listeners().len() && before.listeners()[k].has_room() && !(
        #[trigger] after.listeners()[k]).gone() implies after.listeners()[k].received()
        == before.listeners()[k].received().push(event) by {
        assert(before.listeners()[k].offered(event, after.listeners()[k]));
        lemma_received(before.listeners()[k], event, after.listeners()[k]);
    }
}

/// A listener stayed there and took nothing out while events were offered: an event for which there
/// was no room was lost.
pub open spec fn unread(senders: Seq<EventsSender>, k: int) -> bool {
    forall|i: int|
        #![trigger senders[i]]
        0 < i < senders.len() ==> {
            &&& !senders[i].listeners()[k].gone()
            &&& !senders[i - 1].listeners()[k].has_room()
                ==> senders[i].listeners()[k].tried.last().1 is Full
        }
}

/// A new listener that takes nothing out keeps the first events that are offered to it, as many as
/// fit in, in their order. Those that come later are lost.
pub proof fn unread_listener_keeps_the_first_events(
    senders: Seq<EventsSender>,
    events: Seq<Event>,
    reports: Seq<Option<Error>>,
    k: int,
    n: int,
)
    requires
        offers(senders, events, reports),
        0 <= k < senders[0].listeners().len(),
        senders[0].listeners()[k].tried.len() == 0,
        unread(senders, k),
        0 <= n <= events.len(),
    ensures
        senders[n].listeners()[k].received() == if n <= senders[0].listeners()[k].capacity {
            events.take(n)
        } else {
            events.take(senders[0].listeners()[k].capacity as int)
        },
    decreases n,
{
    let capacity = senders[0].listeners()[k].capacity;
    if n > 0 {
        unread_listener_keeps_the_first_events(senders, events, reports, k, n - 1);
        lemma_listeners_stay(senders, events, reports, n - 1);
        assert(senders[n - 1].offered(events[n - 1], senders[n], reports[n - 1]));
        let (before, after) = (senders[n - 1].listeners()[k], senders[n].listeners()[k]);
        assert(before.capacity == capacity);
        assert(before.offered(events[n - 1], after));
        lemma_received(before, events[n - 1], after);
        assert(!before.gone()) by {
            if n - 1 > 0 {
                assert(!senders[n - 1].listeners()[k].gone());
            }
        }
        assert(!after.gone());
        if n <= capacity {
            assert(events.take(n) =~= events.take(n - 1).push(events[n - 1]));
        } else {
            assert(after.tried.last().1 is Full);
            if n - 1 <= capacity {
                assert(events.take(n - 1) =~= events.take(capacity as int));
            }
        }
    } else {
        assert(events.take(0) =~= Seq::empty());
    }
}

/// Where the one listener of a connection takes nothing out, the first event that does not fit in is
/// reported, and no other, however many follow.
pub proof fn first_event_without_room_is_reported(
    senders: Seq<EventsSender>,
    events: Seq<Event>,
    reports: Seq<Option<Error>>,
    i: int,
)
    requires
        offers(senders, events, reports),
        senders[0].listeners().len() == 1,
        senders[0].listeners()[0].tried.len() == 0,
        !senders[0].overflowed(),
        unread(senders, 0),
        0 <= i < events.len(),
    ensures
        reports[i] is Some <==> i == senders[0].listeners()[0].capacity,
        senders[i].overflowed() <==> i > senders[0].listeners()[0].capacity,
    decreases i,
{
    let capacity = senders[0].listeners()[0].capacity;
    if i > 0 {
        first_event_without_room_is_reported(senders, events, reports, i - 1);
        assert(senders[i - 1].offered(events[i - 1], senders[i], reports[i - 1]));
    }
    unread_listener_keeps_the_first_events(senders, events, reports, 0, i);
    lemma_listeners_stay(senders, events, reports, i);
    assert(senders[i].offered(events[i], senders[i + 1], reports[i]));
    let (before, after) = (senders[i].listeners()[0], senders[i + 1].listeners()[0]);
    assert(before.offered(events[i], after));
    assert(!before.gone());
    assert(!after.gone());
    assert(before.has_room() <==> i < capacity);
    assert(before.lost(after) <==> i >= capacity);
    assert(senders[i].lost(senders[i + 1]) <==> before.lost(after));
}

/// A listener looked several times: what became of its notice, whether events had been lost by then,
/// and what it was told.
pub open spec fn looks(
    listener: Seq<OverflowNotice>,
    lost: Seq<bool>,
    told: Seq<Option<Event>>,
) -> bool {
    &&& listener.len() == lost.len() + 1
    &&& told.len() == lost.len()
    &&& forall|i: int|
        0 <= i < lost.len() ==> listener[i].looked(#[trigger] lost[i], listener[i + 1], told[i])
}

/// A listener has been told once it has looked after events were lost.
proof fn lemma_told_after_loss(
    listener: Seq<OverflowNotice>,
    lost: Seq<bool>,
    told: Seq<Option<Event>>,
    i: int,
)
    requires
        looks(listener, lost, told),
        !listener[0].given(),
        0 <= i < listener.len(),
    ensures
        listener[i].given() <==> exists|k: int| 0 <= k < i && lost[k],
    decreases i,
{
    if i > 0 {
        lemma_told_after_loss(listener, lost, told, i - 1);
        assert(listener[i - 1].looked(lost[i - 1], listener[i], told[i - 1]));
    }
}

/// A listener that looks after events have been lost is told so, the first time and never again.
pub proof fn each_listener_is_told_once(
    listener: Seq<OverflowNotice>,
    lost: Seq<bool>,
    told: Seq<Option<Event>>,
    i: int,
)
    requires
        looks(listener, lost, told),
        !listener[0].given(),
        0 <= i < lost.len(),
    ensures
        told[i] is Some <==> lost[i] && forall|k: int| 0 <= k < i ==> !lost[k],
{
    lemma_told_after_loss(listener, lost, told, i);
    assert(listener[i].looked(lost[i], listener[i + 1], told[i]));
}

/// A task took several steps: what it had left to do, and what was handed out to count it out.
pub open spec fn task_steps<F>(tasks: Seq<ScopedFuture<F>>, guards: Seq<Option<Guard>>) -> bool {
    &&& tasks.len() == guards.len() + 1
    &&& forall|i: int|
        0 <= i < guards.len() ==> tasks[i].moved(tasks[i + 1], #[trigger] guards[i])
}

/// A task that is gone stays gone.
proof fn lemma_task_stays_gone<F>(
    tasks: Seq<ScopedFuture<F>>,
    guards: Seq<Option<Guard>>,
    i: int,
    j: int,
)
    requires
        task_steps(tasks, guards),
        0 <= i <= j < tasks.len(),
        tasks[i].pending() is None,
    ensures
        tasks[j].pending() is None,
    decreases j - i,
{
    if i < j {
        assert(tasks[i].moved(tasks[i + 1], guards[i]));
        lemma_task_stays_gone(tasks, guards, i + 1, j);
    }
}

/// However often a task is polled and finished, what counts it is handed out once at most, and only
/// when the task has dropped everything.
pub proof fn task_is_counted_out_once<F>(
    tasks: Seq<ScopedFuture<F>>,
    guards: Seq<Option<Guard>>,
    i: int,
    j: int,
)
    requires
        task_steps(tasks, guards),
        0 <= i < j < guards.len(),
        guards[i] is Some,
    ensures
        tasks[i + 1].pending() is None,
        guards[j] is None,
{
    assert(tasks[i].moved(tasks[i + 1], guards[i]));
    lemma_task_stays_gone(tasks, guards, i + 1, j);
    assert(tasks[j].moved(tasks[j + 1], guards[j]));
}

/// The owner of a connection and those who hold stop handles took turns. Some turns stopped the
/// connection: a call of the owner or of a handle, the end of joining, the end of the owner. The others
/// did not: taking a handle, or waiting for tasks. What became of the control, and the steps to take.
pub open spec fn turns(
    controls: Seq<ConnectorControl>,
    stopping: Seq<bool>,
    steps: Seq<Seq<StopStep>>,
) -> bool {
    &&& controls.len() == stopping.len() + 1
    &&& steps.len() == stopping.len()
    &&& forall|i: int|
        0 <= i < stopping.len() ==> if #[trigger] stopping[i] {
            controls[i].halted(controls[i + 1], steps[i])
        } else {
            controls[i + 1] == controls[i] && steps[i].len() == 0
        }
}

/// A connection is stopped once a turn has stopped it.
proof fn lemma_stopped_after_turn(
    controls: Seq<ConnectorControl>,
    stopping: Seq<bool>,
    steps: Seq<Seq<StopStep>>,
    i: int,
)
    requires
        turns(controls, stopping, steps),
        !controls[0].stopped(),
        0 <= i < controls.len(),
    ensures
        controls[i].stopped() <==> exists|k: int| 0 <= k < i && stopping[k],
    decreases i,
{
    if i > 0 {
        lemma_stopped_after_turn(controls, stopping, steps, i - 1);
        if stopping[i - 1] {
            assert(controls[i - 1].halted(controls[i], steps[i - 1]));
        }
    }
}

/// However the owner of a connection and those who hold stop handles take turns, before and after the
/// owner has joined it, the steps are taken at the first turn that stops it, and never again.
pub proof fn connection_is_stopped_once(
    controls: Seq<ConnectorControl>,
    stopping: Seq<bool>,
    steps: Seq<Seq<StopStep>>,
    i: int,
)
    requires
        turns(controls, stopping, steps),
        !controls[0].stopped(),
        0 <= i < stopping.len(),
    ensures
        if stopping[i] && (forall|k: int| 0 <= k < i ==> !stopping[k]) {
            crate::connection::stop_steps(steps[i])
        } else {
            steps[i].len() == 0
        },
{
    lemma_stopped_after_turn(controls, stopping, steps, i);
    if stopping[i] {
        assert(controls[i].halted(controls[i + 1], steps[i]));
    }
}

} // verus!
