//! The exchanges, queues and bindings that a connection has declared.
use vstd::prelude::*;

use crate::definitions::{Definition, Definitions};
use crate::error::{Error, ErrorKind};
use crate::limits::{exceeded, Budget, Reservation};
use crate::topology::{
    BindingDefinition, BindingView, ExchangeDeclareOptions, ExchangeDefinition, ExchangeKind,
    ExchangeView, QueueDeclareOptions, QueueDefinition, QueueView,
};
use crate::types::{AMQPValue, FieldTable, TableView, ValueView};

verus! {

/// The bytes that a text takes up.
pub open spec fn text_bytes(text: Seq<char>) -> nat {
    vstd::utf8::encode_utf8(text).len()
}

/// The bytes that a table is charged for: what its names and values hold, counted twice, and a
/// fixed charge for each name and each value.
pub open spec fn table_size(table: TableView) -> nat
    decreases table,
{
    if table.len() == 0 {
        0
    } else {
        let (name, value) = table.last();
        table_size(table.drop_last()) + 128 + text_bytes(name) * 2 + value_size(value)
    }
}

/// The bytes that a list of values is charged for.
pub open spec fn array_size(values: Seq<ValueView>) -> nat
    decreases values,
{
    if values.len() == 0 {
        0
    } else {
        array_size(values.drop_last()) + value_size(values.last())
    }
}

/// The bytes that a value is charged for.
pub open spec fn value_size(value: ValueView) -> nat
    decreases value,
{
    128 + match value {
        ValueView::LongString(bytes) => bytes.len() * 2,
        ValueView::ShortString(text) => text_bytes(text) * 2,
        ValueView::ByteArray(bytes) => bytes.len() * 2,
        ValueView::FieldTable(table) => table_size(table),
        ValueView::FieldArray(values) => array_size(values),
        _ => 0,
    }
}

/// A number as a `usize`, if it is not too large for one.
pub open spec fn fitting(n: nat) -> Option<usize> {
    if n <= usize::MAX {
        Some(n as usize)
    } else {
        None
    }
}

/// The sum of two numbers that may have been too large already.
pub(crate) fn plus(
    a: Option<usize>,
    b: Option<usize>,
    Ghost(m): Ghost<nat>,
    Ghost(n): Ghost<nat>,
) -> (sum: Option<usize>)
    requires
        a == fitting(m),
        b == fitting(n),
    ensures
        sum == fitting(m + n),
{
    match (a, b) {
        (Some(a), Some(b)) => a.checked_add(b),
        _ => None,
    }
}

/// Twice the length of some bytes.
fn doubled(bytes: &[u8]) -> (n: Option<usize>)
    ensures
        n == fitting(bytes@.len() * 2),
{
    bytes.len().checked_mul(2)
}

/// The bytes that a value is charged for, if they can be counted in a `usize`.
pub fn checked_value_bytes(v: &AMQPValue) -> (bytes: Option<usize>)
    ensures
        bytes == fitting(value_size(v@)),
    decreases v,
{
    let ghost size: nat = (value_size(v@) - 128) as nat;
    let held: Option<usize> = match v {
        AMQPValue::LongString(v) => doubled(v.as_slice()),
        AMQPValue::ShortString(v) => doubled(v.as_str().as_bytes()),
        AMQPValue::ByteArray(v) => doubled(v.as_slice()),
        AMQPValue::FieldTable(v) => checked_table_bytes(v),
        AMQPValue::FieldArray(v) => checked_array_bytes(v),
        _ => Some(0),
    };
    plus(Some(128), held, Ghost(128), Ghost(size))
}

/// The bytes that a list of values is charged for, if they can be counted in a `usize`.
fn checked_array_bytes(values: &Vec<AMQPValue>) -> (bytes: Option<usize>)
    ensures
        bytes == fitting(array_size(crate::types::array_view(values@))),
    decreases values,
{
    let ghost all = crate::types::array_view(values@);
    let mut bytes: Option<usize> = Some(0);
    let mut i: usize = 0;
    while i < values.len()
        invariant
            all == crate::types::array_view(values@),
            i <= values@.len(),
            bytes == fitting(array_size(all.take(i as int))),
        decreases values@.len() - i,
    {
        assert(decreases_to!(values => values@));
        assert(decreases_to!(values@ => values@[i as int]));
        assert(all.take(i + 1).drop_last() =~= all.take(i as int));
        assert(all[i as int] == values@[i as int]@);
        bytes = plus(
            bytes,
            checked_value_bytes(&values[i]),
            Ghost(array_size(all.take(i as int))),
            Ghost(value_size(all[i as int])),
        );
        i = i + 1;
    }
    assert(all.take(i as int) =~= all);
    bytes
}

/// The bytes that a table is charged for, if they can be counted in a `usize`.
pub fn checked_table_bytes(table: &FieldTable) -> (bytes: Option<usize>)
    ensures
        bytes == fitting(table_size(table@)),
    decreases table,
{
    let ghost all = table@;
    let entries = table.entries();
    let mut bytes: Option<usize> = Some(0);
    let mut i: usize = 0;
    while i < entries.len()
        invariant
            decreases_to!(table => entries@),
            all.len() == entries@.len(),
            forall|j: int|
                0 <= j < entries@.len() ==> (#[trigger] entries@[j]).0@ == all[j].0
                    && entries@[j].1@ == all[j].1,
            i <= entries@.len(),
            bytes == fitting(table_size(all.take(i as int))),
        decreases entries@.len() - i,
    {
        assert(all.take(i + 1).drop_last() =~= all.take(i as int));
        let ghost (name, value) = all[i as int];
        let ghost (head, tail) = (128 + text_bytes(name) * 2, value_size(value));
        let charge: Option<usize> = plus(
            Some(128),
            doubled(entries[i].0.as_str().as_bytes()),
            Ghost(128),
            Ghost(text_bytes(name) * 2),
        );
        assert(decreases_to!(entries@ => entries@[i as int]));
        assert(decreases_to!(entries@[i as int] => entries@[i as int].1));
        let charge: Option<usize> = plus(
            charge,
            checked_value_bytes(&entries[i].1),
            Ghost(head),
            Ghost(tail),
        );
        bytes = plus(bytes, charge, Ghost(table_size(all.take(i as int))), Ghost(head + tail));
        i = i + 1;
    }
    assert(all.take(i as int) =~= all);
    bytes
}

/// The bytes that a table is charged for.
pub fn table_bytes(table: &FieldTable) -> (bytes: usize)
    requires
        table_size(table@) <= usize::MAX,
    ensures
        bytes == table_size(table@),
{
    match checked_table_bytes(table) {
        Some(bytes) => bytes,
        None => {
            assert(false);
            0
        },
    }
}

/// The bytes that a value is charged for.
pub fn value_bytes(v: &AMQPValue) -> (bytes: usize)
    requires
        value_size(v@) <= usize::MAX,
    ensures
        bytes == value_size(v@),
{
    match checked_value_bytes(v) {
        Some(bytes) => bytes,
        None => {
            assert(false);
            0
        },
    }
}

/// The bytes that some bindings are charged for.
pub open spec fn bindings_size(bindings: Seq<BindingView>) -> nat
    decreases bindings.len(),
{
    if bindings.len() == 0 {
        0
    } else {
        bindings_size(bindings.drop_last()) + binding_size(bindings.last())
    }
}

/// The bytes that a binding is charged for.
pub open spec fn binding_size(binding: BindingView) -> nat {
    256 + text_bytes(binding.source) * 2 + text_bytes(binding.routing_key) * 2 + table_size(
        binding.arguments,
    )
}

/// The bytes that the arguments of a declaration are charged for.
pub open spec fn arguments_size(arguments: Option<TableView>) -> nat {
    match arguments {
        Some(table) => table_size(table),
        None => 0,
    }
}

/// The bytes that an exchange is charged for.
pub open spec fn exchange_size(exchange: ExchangeView) -> nat {
    512 + text_bytes(exchange.name) * 2 + arguments_size(exchange.arguments) + bindings_size(
        exchange.bindings,
    )
}

/// The bytes that a queue is charged for.
pub open spec fn queue_size(queue: QueueView) -> nat {
    512 + text_bytes(queue.name) * 2 + arguments_size(queue.arguments) + bindings_size(
        queue.bindings,
    )
}

fn checked_binding_bytes(binding: &BindingDefinition) -> (bytes: Option<usize>)
    ensures
        bytes == fitting(binding_size(binding@)),
{
    let ghost source = text_bytes(binding@.source) * 2;
    let ghost key = text_bytes(binding@.routing_key) * 2;
    let bytes: Option<usize> = plus(
        Some(256),
        doubled(binding.source.as_str().as_bytes()),
        Ghost(256),
        Ghost(source),
    );
    let bytes: Option<usize> = plus(
        bytes,
        doubled(binding.routing_key.as_str().as_bytes()),
        Ghost(256 + source),
        Ghost(key),
    );
    plus(
        bytes,
        checked_table_bytes(&binding.arguments),
        Ghost(256 + source + key),
        Ghost(table_size(binding@.arguments)),
    )
}

fn checked_bindings_bytes(bindings: &Vec<BindingDefinition>) -> (bytes: Option<usize>)
    ensures
        bytes == fitting(bindings_size(crate::topology::bindings_view(bindings@))),
{
    let ghost all = crate::topology::bindings_view(bindings@);
    let mut bytes: Option<usize> = Some(0);
    let mut i: usize = 0;
    while i < bindings.len()
        invariant
            all == crate::topology::bindings_view(bindings@),
            i <= bindings@.len(),
            bytes == fitting(bindings_size(all.take(i as int))),
        decreases bindings@.len() - i,
    {
        assert(all.take(i + 1).drop_last() =~= all.take(i as int));
        assert(all[i as int] == bindings@[i as int]@);
        bytes = plus(
            bytes,
            checked_binding_bytes(&bindings[i]),
            Ghost(bindings_size(all.take(i as int))),
            Ghost(binding_size(all[i as int])),
        );
        i = i + 1;
    }
    assert(all.take(i as int) =~= all);
    bytes
}

/// The bytes for a name, the arguments of its declaration and its bindings.
fn checked_definition_bytes(
    name: &String,
    arguments: &Option<FieldTable>,
    bindings: &Vec<BindingDefinition>,
) -> (bytes: Option<usize>)
    ensures
        bytes == fitting(
            512 + text_bytes(name@) * 2 + arguments_size(
                crate::topology::arguments_view(*arguments),
            ) + bindings_size(crate::topology::bindings_view(bindings@)),
        ),
{
    let ghost text = text_bytes(name@) * 2;
    let ghost table = arguments_size(crate::topology::arguments_view(*arguments));
    let declared: Option<usize> = match arguments {
        Some(table) => checked_table_bytes(table),
        None => Some(0),
    };
    let bytes: Option<usize> = plus(
        Some(512),
        doubled(name.as_str().as_bytes()),
        Ghost(512),
        Ghost(text),
    );
    let bytes: Option<usize> = plus(bytes, declared, Ghost(512 + text), Ghost(table));
    plus(
        bytes,
        checked_bindings_bytes(bindings),
        Ghost(512 + text + table),
        Ghost(bindings_size(crate::topology::bindings_view(bindings@))),
    )
}

impl Definition for ExchangeDefinition {
    open spec fn name_of(definition: ExchangeView) -> Seq<char> {
        definition.name
    }

    open spec fn size_of(definition: ExchangeView) -> nat {
        exchange_size(definition)
    }

    fn name(&self) -> (name: &String) {
        &self.name
    }

    fn checked_bytes(&self) -> (bytes: Option<usize>) {
        checked_definition_bytes(&self.name, &self.arguments, &self.bindings)
    }

    fn duplicate(&self) -> (copy: Self) {
        self.clone()
    }
}

impl Definition for QueueDefinition {
    open spec fn name_of(definition: QueueView) -> Seq<char> {
        definition.name
    }

    open spec fn size_of(definition: QueueView) -> nat {
        queue_size(definition)
    }

    fn name(&self) -> (name: &String) {
        &self.name
    }

    fn checked_bytes(&self) -> (bytes: Option<usize>) {
        checked_definition_bytes(&self.name, &self.arguments, &self.bindings)
    }

    fn duplicate(&self) -> (copy: Self) {
        self.clone()
    }
}

/// What a connection has declared, and what it is charged for that.
pub struct Registry {
    reservation: Option<Reservation>,
    exchanges: Definitions<ExchangeDefinition>,
    queues: Definitions<QueueDefinition>,
}

/// A registry, in contracts.
pub struct RegistryView {
    /// The exchanges, by name.
    pub exchanges: Map<Seq<char>, ExchangeView>,
    /// The queues, by name.
    pub queues: Map<Seq<char>, QueueView>,
    /// The bytes that are reserved for the registry, once there is a reservation.
    pub reserved: Option<nat>,
}

impl RegistryView {
    /// Does each definition stand under its own name?
    pub open spec fn named(self) -> bool {
        &&& crate::definitions::named::<ExchangeDefinition>(self.exchanges)
        &&& crate::definitions::named::<QueueDefinition>(self.queues)
    }

    /// The bytes that the definitions are charged for.
    pub open spec fn size(self) -> nat {
        crate::definitions::total_size::<ExchangeDefinition>(self.exchanges)
            + crate::definitions::total_size::<QueueDefinition>(self.queues)
    }

    /// Does a budget have room for the definitions?
    pub open spec fn within(self, budget: Option<Budget>) -> bool {
        match (budget, self.reserved) {
            (Some(budget), Some(reserved)) => budget.admits_resize(reserved, self.size()),
            (Some(budget), None) => budget.admits(self.size()),
            (None, _) => true,
        }
    }

    /// The exchange with a name, or else one of which only the name is known.
    pub open spec fn exchange(self, name: Seq<char>) -> ExchangeView {
        if self.exchanges.dom().contains(name) {
            self.exchanges[name]
        } else {
            ExchangeView::undeclared(name)
        }
    }

    /// The queue with a name, or else one of which only the name is known.
    pub open spec fn queue(self, name: Seq<char>) -> QueueView {
        if self.queues.dom().contains(name) {
            self.queues[name]
        } else {
            QueueView::undeclared(name)
        }
    }

    /// The same registry with this exchange under its name.
    pub open spec fn with_exchange(self, exchange: ExchangeView) -> RegistryView {
        RegistryView { exchanges: self.exchanges.insert(exchange.name, exchange), ..self }
    }

    /// The same registry with this queue under its name.
    pub open spec fn with_queue(self, queue: QueueView) -> RegistryView {
        RegistryView { queues: self.queues.insert(queue.name, queue), ..self }
    }

    /// The same registry without an exchange.
    pub open spec fn without_exchange(self, name: Seq<char>) -> RegistryView {
        RegistryView { exchanges: self.exchanges.remove(name), ..self }
    }

    /// The same registry without a queue.
    pub open spec fn without_queue(self, name: Seq<char>) -> RegistryView {
        RegistryView { queues: self.queues.remove(name), ..self }
    }
}

/// Every definition of a registry stands under its own name.
pub proof fn registry_is_named(registry: Registry)
    requires
        registry.well_formed(),
    ensures
        registry@.named(),
{
    crate::definitions::definitions_stand_under_their_names(registry.exchanges);
    crate::definitions::definitions_stand_under_their_names(registry.queues);
}

/// The definitions stay as they are. Where the budget has room for them, they are what is reserved;
/// where it has not, what was reserved stays reserved.
pub open spec fn settled(
    before: RegistryView,
    budget: Option<Budget>,
    after: RegistryView,
    left: Option<Budget>,
) -> bool {
    &&& after.exchanges == before.exchanges
    &&& after.queues == before.queues
    &&& match (budget, left) {
        (Some(budget), Some(left)) => {
            let others = match before.reserved {
                Some(reserved) => budget.outstanding().remove(reserved),
                None => budget.outstanding(),
            };
            &&& left.limits() == budget.limits()
            &&& left.identity() == budget.identity()
            &&& if before.within(Some(budget)) {
                &&& after.reserved == Some(before.size())
                &&& left.outstanding() == others.insert(before.size())
            } else {
                &&& after.reserved == before.reserved
                &&& left.outstanding() == budget.outstanding()
            }
        },
        (None, None) => after.reserved == before.reserved,
        _ => false,
    }
}

/// Success where the budget has room for the definitions, the error of a limit where it has not.
pub open spec fn answers(
    before: RegistryView,
    budget: Option<Budget>,
    result: Result<(), Error>,
) -> bool {
    match result {
        Ok(_) => before.within(budget),
        Err(error) => {
            &&& !before.within(budget)
            &&& error.spec_kind() == ErrorKind::ResourceLimitExceeded
        },
    }
}

impl Registry {
    /// The registry, in contracts.
    pub closed spec fn view(&self) -> RegistryView {
        RegistryView {
            exchanges: self.exchanges.spec_map(),
            queues: self.queues.spec_map(),
            reserved: match self.reservation {
                Some(reservation) => Some(reservation.size()),
                None => None,
            },
        }
    }

    /// No name is defined twice, and each definition stands under its own name.
    pub closed spec fn well_formed(self) -> bool {
        &&& self.exchanges.well_formed()
        &&& self.queues.well_formed()
    }

    /// The budget that what is reserved for the registry counts against.
    pub closed spec fn charged(self) -> Option<int> {
        match self.reservation {
            Some(reservation) => Some(reservation.budget()),
            None => None,
        }
    }

    /// The registry and its budget agree: what is reserved for the registry counts there.
    pub open spec fn accounted(self, budget: Option<Budget>) -> bool {
        &&& self.well_formed()
        &&& budget matches Some(budget) ==> budget.well_formed()
        &&& self@.reserved matches Some(reserved) ==> (budget matches Some(budget)
            && budget.holds(reserved))
        &&& self.charged() matches Some(charged) ==> (budget matches Some(budget)
            && budget.identity() == charged)
    }

    /// An empty registry.
    pub fn new() -> (registry: Registry)
        ensures
            registry.well_formed(),
            registry@.exchanges == Map::<Seq<char>, ExchangeView>::empty(),
            registry@.queues == Map::<Seq<char>, QueueView>::empty(),
            registry@.reserved is None,
            registry.charged() is None,
    {
        Registry { reservation: None, exchanges: Definitions::new(), queues: Definitions::new() }
    }

    /// Charge the budget, where there is one, for the definitions as they are now.
    pub fn check_limit(&mut self, budget: &mut Option<Budget>) -> (result: Result<(), Error>)
        requires
            old(self).accounted(*old(budget)),
        ensures
            final(self).accounted(*final(budget)),
            answers(old(self)@, *old(budget), result),
            settled(old(self)@, *old(budget), final(self)@, *final(budget)),
            final(self)@.exchanges == old(self)@.exchanges,
            final(self)@.queues == old(self)@.queues,
            *old(budget) is None ==> result is Ok,
            *old(budget) matches Some(before) ==> match old(self)@.reserved {
                Some(reserved) => result is Ok <==> crate::limits::total_bytes(
                    before.outstanding(),
                ) - reserved + old(self)@.size() <= before.limits().retained_bytes,
                None => result is Ok <==> {
                    &&& old(self)@.size() <= before.limits().message_bytes
                    &&& crate::limits::total_bytes(before.outstanding()) + old(self)@.size()
                        <= before.limits().retained_bytes
                    &&& before.outstanding().len() < before.limits().retained_messages
                },
            },
            result is Ok && *old(budget) is Some ==> final(self)@.reserved == Some(
                old(self)@.size(),
            ),
            result is Err ==> final(self)@.reserved == old(self)@.reserved,
            result matches Err(error) ==> error.spec_kind() == ErrorKind::ResourceLimitExceeded,
    {
        let ghost size = self@.size();
        let counted: Option<usize> = plus(
            self.exchanges.checked_bytes(),
            self.queues.checked_bytes(),
            Ghost(crate::definitions::total_size::<ExchangeDefinition>(self@.exchanges)),
            Ghost(crate::definitions::total_size::<QueueDefinition>(self@.queues)),
        );
        let budget = match budget {
            Some(budget) => budget,
            None => {
                return Ok(());
            },
        };
        let bytes: usize = match counted {
            Some(bytes) => bytes,
            None => {
                proof {
                    if let Some(reserved) = self@.reserved {
                        crate::limits::live_reservation_is_counted(*budget, reserved);
                    }
                }
                return Err(exceeded());
            },
        };
        match &mut self.reservation {
            Some(reservation) => reservation.resize(budget, bytes),
            None => match budget.reserve(bytes as u64) {
                Ok(reservation) => {
                    self.reservation = Some(reservation);
                    Ok(())
                },
                Err(error) => Err(error),
            },
        }
    }

    /// Give back what is reserved for the registry.
    pub fn release(&mut self, budget: &mut Option<Budget>)
        requires
            old(self).accounted(*old(budget)),
        ensures
            final(self).accounted(*final(budget)),
            final(self)@.exchanges == old(self)@.exchanges,
            final(self)@.queues == old(self)@.queues,
            final(self)@.reserved is None,
            final(self).charged() is None,
            match (*old(budget), *final(budget)) {
                (Some(before), Some(after)) => {
                    &&& after.limits() == before.limits()
                    &&& after.identity() == before.identity()
                    &&& after.outstanding() == match old(self)@.reserved {
                        Some(reserved) => before.outstanding().remove(reserved),
                        None => before.outstanding(),
                    }
                },
                (None, None) => true,
                _ => false,
            },
    {
        match self.reservation.take() {
            Some(reservation) => match budget {
                Some(budget) => budget.release(reservation),
                None => {},
            },
            None => {},
        }
    }

    /// Copies of the definitions of all exchanges, in no particular order.
    pub fn exchanges_topology(&self) -> (topology: Vec<ExchangeDefinition>)
        requires
            self.well_formed(),
        ensures
            crate::definitions::by_name(topology@) == self@.exchanges,
            forall|i: int|
                0 <= i < topology@.len() ==> self@.exchanges.dom().contains(
                    (#[trigger] topology@[i])@.name,
                ) && self@.exchanges[topology@[i]@.name] == topology@[i]@,
            forall|name: Seq<char>| #[trigger]
                self@.exchanges.dom().contains(name) ==> exists|i: int|
                    0 <= i < topology@.len() && (#[trigger] topology@[i])@.name == name,
            forall|i: int, j: int|
                0 <= i < j < topology@.len() ==> (#[trigger] topology@[i])@.name != (
                #[trigger] topology@[j])@.name,
            topology@.len() == self@.exchanges.dom().len(),
    {
        self.exchanges.copies()
    }

    /// Record the declaration of an exchange.
    pub fn register_exchange(
        &mut self,
        budget: &mut Option<Budget>,
        name: String,
        kind: ExchangeKind,
        options: ExchangeDeclareOptions,
        arguments: FieldTable,
    ) -> (result: Result<(), Error>)
        requires
            old(self).accounted(*old(budget)),
        ensures
            final(self).accounted(*final(budget)),
            ({
                let declared = old(self)@.with_exchange(
                    old(self)@.exchange(name@).declared_as(kind@, options, arguments@),
                );
                &&& answers(declared, *old(budget), result)
                &&& settled(declared, *old(budget), final(self)@, *final(budget))
            }),
            final(self)@.queues == old(self)@.queues,
            final(self)@.exchanges.dom() == old(self)@.exchanges.dom().insert(name@),
            forall|other: Seq<char>| #[trigger]
                old(self)@.exchanges.dom().contains(other) && other != name@ ==> final(self)@.exchanges[other] == old(self)@.exchanges[other],
            final(self)@.exchanges[name@].name == name@,
            final(self)@.exchanges[name@].kind == Some(kind@),
            final(self)@.exchanges[name@].options == Some(options),
            final(self)@.exchanges[name@].arguments == Some(arguments@),
            final(self)@.exchanges[name@].bindings == (if old(self)@.exchanges.dom().contains(name@) {
                old(self)@.exchanges[name@].bindings
            } else {
                Seq::empty()
            }),
            *old(budget) is None ==> result is Ok,
            result matches Err(error) ==> error.spec_kind() == ErrorKind::ResourceLimitExceeded,
            *old(budget) matches Some(before) ==> match old(self)@.reserved {
                Some(reserved) => result is Ok <==> crate::limits::total_bytes(
                    before.outstanding(),
                ) - reserved + final(self)@.size() <= before.limits().retained_bytes,
                None => result is Ok <==> {
                    &&& final(self)@.size() <= before.limits().message_bytes
                    &&& crate::limits::total_bytes(before.outstanding()) + final(self)@.size()
                        <= before.limits().retained_bytes
                    &&& before.outstanding().len() < before.limits().retained_messages
                },
            },
            result is Ok && *old(budget) is Some ==> final(self)@.reserved == Some(
                final(self)@.size(),
            ),
    {
        proof {
            registry_is_named(*self);
        }
        let ghost before = self@;
        let ghost declared = before.with_exchange(
            before.exchange(name@).declared_as(kind@, options, arguments@),
        );
        let definition = match self.exchanges.take(&name) {
            Some(mut definition) => {
                definition.set_declared(kind, options, arguments);
                definition
            },
            None => ExchangeDefinition::declared(name, kind, options, arguments),
        };
        self.exchanges.put(definition);
        assert(self@.exchanges =~= declared.exchanges);
        self.check_limit(budget)
    }

    /// Forget an exchange.
    pub fn deregister_exchange(&mut self, budget: &mut Option<Budget>, name: &str)
        requires
            old(self).accounted(*old(budget)),
        ensures
            final(self).accounted(*final(budget)),
            settled(
                old(self)@.without_exchange(name@),
                *old(budget),
                final(self)@,
                *final(budget),
            ),
            final(self)@.exchanges == old(self)@.exchanges.remove(name@),
            final(self)@.queues == old(self)@.queues,
    {
        let name = name.to_owned();
        let _ = self.exchanges.take(&name);
        let _ = self.check_limit(budget);
    }

    /// Record a binding to an exchange, which need not have been declared.
    pub fn register_exchange_binding(
        &mut self,
        budget: &mut Option<Budget>,
        destination: String,
        source: String,
        routing_key: String,
        arguments: FieldTable,
    ) -> (result: Result<(), Error>)
        requires
            old(self).accounted(*old(budget)),
        ensures
            final(self).accounted(*final(budget)),
            ({
                let binding = BindingView {
                    source: source@,
                    routing_key: routing_key@,
                    arguments: arguments@,
                };
                let bound = old(self)@.with_exchange(old(self)@.exchange(destination@).bound(binding));
                &&& answers(bound, *old(budget), result)
                &&& settled(bound, *old(budget), final(self)@, *final(budget))
            }),
            final(self)@.queues == old(self)@.queues,
            final(self)@.exchanges.dom() == old(self)@.exchanges.dom().insert(destination@),
            forall|other: Seq<char>| #[trigger]
                old(self)@.exchanges.dom().contains(other) && other != destination@ ==> final(self)@.exchanges[other] == old(self)@.exchanges[other],
            final(self)@.exchanges[destination@].name == destination@,
            final(self)@.exchanges[destination@].kind == (if old(self)@.exchanges.dom().contains(destination@) {
                old(self)@.exchanges[destination@].kind
            } else {
                None
            }),
            final(self)@.exchanges[destination@].options == (if old(self)@.exchanges.dom().contains(destination@) {
                old(self)@.exchanges[destination@].options
            } else {
                None
            }),
            final(self)@.exchanges[destination@].arguments == (if old(self)@.exchanges.dom().contains(destination@) {
                old(self)@.exchanges[destination@].arguments
            } else {
                None
            }),
            final(self)@.exchanges[destination@].bindings == (if old(self)@.exchanges.dom().contains(destination@) {
                old(self)@.exchanges[destination@].bindings
            } else {
                Seq::empty()
            }).push(
                BindingView {
                    source: source@,
                    routing_key: routing_key@,
                    arguments: arguments@,
                },
            ),
            *old(budget) is None ==> result is Ok,
            result matches Err(error) ==> error.spec_kind() == ErrorKind::ResourceLimitExceeded,
            *old(budget) matches Some(before) ==> match old(self)@.reserved {
                Some(reserved) => result is Ok <==> crate::limits::total_bytes(
                    before.outstanding(),
                ) - reserved + final(self)@.size() <= before.limits().retained_bytes,
                None => result is Ok <==> {
                    &&& final(self)@.size() <= before.limits().message_bytes
                    &&& crate::limits::total_bytes(before.outstanding()) + final(self)@.size()
                        <= before.limits().retained_bytes
                    &&& before.outstanding().len() < before.limits().retained_messages
                },
            },
            result is Ok && *old(budget) is Some ==> final(self)@.reserved == Some(
                final(self)@.size(),
            ),
    {
        proof {
            registry_is_named(*self);
        }
        let ghost before = self@;
        let ghost binding = BindingView {
            source: source@,
            routing_key: routing_key@,
            arguments: arguments@,
        };
        let ghost bound = before.with_exchange(before.exchange(destination@).bound(binding));
        let mut definition = match self.exchanges.take(&destination) {
            Some(definition) => definition,
            None => ExchangeDefinition::undeclared(destination),
        };
        definition.register_binding(source, routing_key, arguments);
        self.exchanges.put(definition);
        assert(self@.exchanges =~= bound.exchanges);
        self.check_limit(budget)
    }

    /// Forget the bindings to an exchange that these arguments describe.
    pub fn deregister_exchange_binding(
        &mut self,
        budget: &mut Option<Budget>,
        destination: &str,
        source: &str,
        routing_key: &str,
        arguments: &FieldTable,
    )
        requires
            old(self).accounted(*old(budget)),
        ensures
            final(self).accounted(*final(budget)),
            ({
                let unbound = if old(self)@.exchanges.dom().contains(destination@) {
                    old(self)@.with_exchange(
                        old(self)@.exchange(destination@).unbound(source@, routing_key@, arguments@),
                    )
                } else {
                    old(self)@
                };
                settled(unbound, *old(budget), final(self)@, *final(budget))
            }),
            final(self)@.queues == old(self)@.queues,
            final(self)@.exchanges.dom() == old(self)@.exchanges.dom(),
            forall|other: Seq<char>| #[trigger]
                old(self)@.exchanges.dom().contains(other) && other != destination@ ==> final(self)@.exchanges[other] == old(self)@.exchanges[other],
            old(self)@.exchanges.dom().contains(destination@) ==> {
                let before = old(self)@.exchanges[destination@];
                let after = final(self)@.exchanges[destination@];
                &&& after.name == before.name
                &&& after.kind == before.kind
                &&& after.options == before.options
                &&& after.arguments == before.arguments
                &&& after.bindings == before.bindings.filter(
                    |b: BindingView|
                        b.source != source@ || b.routing_key != routing_key@
                            || !crate::types::table_equal(b.arguments, arguments@),
                )
            },
    {
        proof {
            registry_is_named(*self);
        }
        let ghost before = self@;
        let destination = destination.to_owned();
        match self.exchanges.take(&destination) {
            Some(mut definition) => {
                definition.deregister_binding(source, routing_key, arguments);
                self.exchanges.put(definition);
                assert(self@.exchanges =~= before.with_exchange(
                    before.exchange(destination@).unbound(source@, routing_key@, arguments@),
                ).exchanges);
            },
            None => {
                assert(self@.exchanges =~= before.exchanges);
            },
        }
        let _ = self.check_limit(budget);
    }

    /// Copies of the definitions of all queues, in no particular order.
    pub fn queues_topology(&self) -> (topology: Vec<QueueDefinition>)
        requires
            self.well_formed(),
        ensures
            crate::definitions::by_name(topology@) == self@.queues,
            forall|i: int|
                0 <= i < topology@.len() ==> self@.queues.dom().contains(
                    (#[trigger] topology@[i])@.name,
                ) && self@.queues[topology@[i]@.name] == topology@[i]@,
            forall|name: Seq<char>| #[trigger]
                self@.queues.dom().contains(name) ==> exists|i: int|
                    0 <= i < topology@.len() && (#[trigger] topology@[i])@.name == name,
            forall|i: int, j: int|
                0 <= i < j < topology@.len() ==> (#[trigger] topology@[i])@.name != (
                #[trigger] topology@[j])@.name,
            topology@.len() == self@.queues.dom().len(),
    {
        self.queues.copies()
    }

    /// Record the declaration of a queue.
    pub fn register_queue(
        &mut self,
        budget: &mut Option<Budget>,
        name: String,
        options: QueueDeclareOptions,
        arguments: FieldTable,
    ) -> (result: Result<(), Error>)
        requires
            old(self).accounted(*old(budget)),
        ensures
            final(self).accounted(*final(budget)),
            ({
                let declared = old(self)@.with_queue(
                    old(self)@.queue(name@).declared_as(options, arguments@),
                );
                &&& answers(declared, *old(budget), result)
                &&& settled(declared, *old(budget), final(self)@, *final(budget))
            }),
            final(self)@.exchanges == old(self)@.exchanges,
            final(self)@.queues.dom() == old(self)@.queues.dom().insert(name@),
            forall|other: Seq<char>| #[trigger]
                old(self)@.queues.dom().contains(other) && other != name@ ==> final(self)@.queues[other] == old(self)@.queues[other],
            final(self)@.queues[name@].name == name@,
            final(self)@.queues[name@].options == Some(options),
            final(self)@.queues[name@].arguments == Some(arguments@),
            final(self)@.queues[name@].bindings == (if old(self)@.queues.dom().contains(name@) {
                old(self)@.queues[name@].bindings
            } else {
                Seq::empty()
            }),
            *old(budget) is None ==> result is Ok,
            result matches Err(error) ==> error.spec_kind() == ErrorKind::ResourceLimitExceeded,
            *old(budget) matches Some(before) ==> match old(self)@.reserved {
                Some(reserved) => result is Ok <==> crate::limits::total_bytes(
                    before.outstanding(),
                ) - reserved + final(self)@.size() <= before.limits().retained_bytes,
                None => result is Ok <==> {
                    &&& final(self)@.size() <= before.limits().message_bytes
                    &&& crate::limits::total_bytes(before.outstanding()) + final(self)@.size()
                        <= before.limits().retained_bytes
                    &&& before.outstanding().len() < before.limits().retained_messages
                },
            },
            result is Ok && *old(budget) is Some ==> final(self)@.reserved == Some(
                final(self)@.size(),
            ),
    {
        proof {
            registry_is_named(*self);
        }
        let ghost before = self@;
        let ghost declared = before.with_queue(
            before.queue(name@).declared_as(options, arguments@),
        );
        let definition = match self.queues.take(&name) {
            Some(mut definition) => {
                definition.set_declared(options, arguments);
                definition
            },
            None => QueueDefinition::declared(name, options, arguments),
        };
        self.queues.put(definition);
        assert(self@.queues =~= declared.queues);
        self.check_limit(budget)
    }

    /// Forget a queue.
    pub fn deregister_queue(&mut self, budget: &mut Option<Budget>, name: &str)
        requires
            old(self).accounted(*old(budget)),
        ensures
            final(self).accounted(*final(budget)),
            settled(
                old(self)@.without_queue(name@),
                *old(budget),
                final(self)@,
                *final(budget),
            ),
            final(self)@.queues == old(self)@.queues.remove(name@),
            final(self)@.exchanges == old(self)@.exchanges,
    {
        let name = name.to_owned();
        let _ = self.queues.take(&name);
        let _ = self.check_limit(budget);
    }

    /// Record a binding to a queue, which need not have been declared.
    pub fn register_queue_binding(
        &mut self,
        budget: &mut Option<Budget>,
        destination: String,
        source: String,
        routing_key: String,
        arguments: FieldTable,
    ) -> (result: Result<(), Error>)
        requires
            old(self).accounted(*old(budget)),
        ensures
            final(self).accounted(*final(budget)),
            ({
                let binding = BindingView {
                    source: source@,
                    routing_key: routing_key@,
                    arguments: arguments@,
                };
                let bound = old(self)@.with_queue(old(self)@.queue(destination@).bound(binding));
                &&& answers(bound, *old(budget), result)
                &&& settled(bound, *old(budget), final(self)@, *final(budget))
            }),
            final(self)@.exchanges == old(self)@.exchanges,
            final(self)@.queues.dom() == old(self)@.queues.dom().insert(destination@),
            forall|other: Seq<char>| #[trigger]
                old(self)@.queues.dom().contains(other) && other != destination@ ==> final(self)@.queues[other] == old(self)@.queues[other],
            final(self)@.queues[destination@].name == destination@,
            final(self)@.queues[destination@].options == (if old(self)@.queues.dom().contains(destination@) {
                old(self)@.queues[destination@].options
            } else {
                None
            }),
            final(self)@.queues[destination@].arguments == (if old(self)@.queues.dom().contains(destination@) {
                old(self)@.queues[destination@].arguments
            } else {
                None
            }),
            final(self)@.queues[destination@].bindings == (if old(self)@.queues.dom().contains(destination@) {
                old(self)@.queues[destination@].bindings
            } else {
                Seq::empty()
            }).push(
                BindingView {
                    source: source@,
                    routing_key: routing_key@,
                    arguments: arguments@,
                },
            ),
            *old(budget) is None ==> result is Ok,
            result matches Err(error) ==> error.spec_kind() == ErrorKind::ResourceLimitExceeded,
            *old(budget) matches Some(before) ==> match old(self)@.reserved {
                Some(reserved) => result is Ok <==> crate::limits::total_bytes(
                    before.outstanding(),
                ) - reserved + final(self)@.size() <= before.limits().retained_bytes,
                None => result is Ok <==> {
                    &&& final(self)@.size() <= before.limits().message_bytes
                    &&& crate::limits::total_bytes(before.outstanding()) + final(self)@.size()
                        <= before.limits().retained_bytes
                    &&& before.outstanding().len() < before.limits().retained_messages
                },
            },
            result is Ok && *old(budget) is Some ==> final(self)@.reserved == Some(
                final(self)@.size(),
            ),
    {
        proof {
            registry_is_named(*self);
        }
        let ghost before = self@;
        let ghost binding = BindingView {
            source: source@,
            routing_key: routing_key@,
            arguments: arguments@,
        };
        let ghost bound = before.with_queue(before.queue(destination@).bound(binding));
        let mut definition = match self.queues.take(&destination) {
            Some(definition) => definition,
            None => QueueDefinition::undeclared(destination),
        };
        definition.register_binding(source, routing_key, arguments);
        self.queues.put(definition);
        assert(self@.queues =~= bound.queues);
        self.check_limit(budget)
    }

    /// Forget the bindings to a queue that these arguments describe.
    pub fn deregister_queue_binding(
        &mut self,
        budget: &mut Option<Budget>,
        destination: &str,
        source: &str,
        routing_key: &str,
        arguments: &FieldTable,
    )
        requires
            old(self).accounted(*old(budget)),
        ensures
            final(self).accounted(*final(budget)),
            ({
                let unbound = if old(self)@.queues.dom().contains(destination@) {
                    old(self)@.with_queue(
                        old(self)@.queue(destination@).unbound(source@, routing_key@, arguments@),
                    )
                } else {
                    old(self)@
                };
                settled(unbound, *old(budget), final(self)@, *final(budget))
            }),
            final(self)@.exchanges == old(self)@.exchanges,
            final(self)@.queues.dom() == old(self)@.queues.dom(),
            forall|other: Seq<char>| #[trigger]
                old(self)@.queues.dom().contains(other) && other != destination@ ==> final(self)@.queues[other] == old(self)@.queues[other],
            old(self)@.queues.dom().contains(destination@) ==> {
                let before = old(self)@.queues[destination@];
                let after = final(self)@.queues[destination@];
                &&& after.name == before.name
                &&& after.options == before.options
                &&& after.arguments == before.arguments
                &&& after.bindings == before.bindings.filter(
                    |b: BindingView|
                        b.source != source@ || b.routing_key != routing_key@
                            || !crate::types::table_equal(b.arguments, arguments@),
                )
            },
    {
        proof {
            registry_is_named(*self);
        }
        let ghost before = self@;
        let destination = destination.to_owned();
        match self.queues.take(&destination) {
            Some(mut definition) => {
                definition.deregister_binding(source, routing_key, arguments);
                self.queues.put(definition);
                assert(self@.queues =~= before.with_queue(
                    before.queue(destination@).unbound(source@, routing_key@, arguments@),
                ).queues);
            },
            None => {
                assert(self@.queues =~= before.queues);
            },
        }
        let _ = self.check_limit(budget);
    }
}

} // verus!
