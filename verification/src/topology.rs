//! Definitions of exchanges, queues and bindings.
use vstd::prelude::*;

use crate::types::{table_eq, FieldTable, TableView};

verus! {

/// How an exchange routes messages.
#[derive(Debug, PartialEq, Eq)]
pub enum ExchangeKind {
    /// A kind that a plugin provides, by name.
    Custom(String),
    /// By routing key.
    Direct,
    /// To every bound queue.
    Fanout,
    /// By message headers.
    Headers,
    /// By routing key pattern.
    Topic,
}

/// An exchange kind, in contracts.
pub enum KindView {
    Custom(Seq<char>),
    Direct,
    Fanout,
    Headers,
    Topic,
}

impl View for ExchangeKind {
    type V = KindView;

    open spec fn view(&self) -> KindView {
        match self {
            ExchangeKind::Custom(name) => KindView::Custom(name@),
            ExchangeKind::Direct => KindView::Direct,
            ExchangeKind::Fanout => KindView::Fanout,
            ExchangeKind::Headers => KindView::Headers,
            ExchangeKind::Topic => KindView::Topic,
        }
    }
}

impl Clone for ExchangeKind {
    fn clone(&self) -> (copy: Self)
        ensures
            copy@ == self@,
    {
        match self {
            ExchangeKind::Custom(name) => ExchangeKind::Custom(name.clone()),
            ExchangeKind::Direct => ExchangeKind::Direct,
            ExchangeKind::Fanout => ExchangeKind::Fanout,
            ExchangeKind::Headers => ExchangeKind::Headers,
            ExchangeKind::Topic => ExchangeKind::Topic,
        }
    }
}

/// The flags of an exchange declaration.
#[derive(Clone, Copy, Debug, PartialEq, Eq, Structural)]
pub struct ExchangeDeclareOptions {
    /// Only check that the exchange exists.
    pub passive: bool,
    /// Keep the exchange over a restart of the broker.
    pub durable: bool,
    /// Delete the exchange when nothing is bound to it any longer.
    pub auto_delete: bool,
    /// Accept messages from other exchanges only.
    pub internal: bool,
    /// Do not wait for the broker's reply.
    pub nowait: bool,
}

/// The flags of a queue declaration.
#[derive(Clone, Copy, Debug, PartialEq, Eq, Structural)]
pub struct QueueDeclareOptions {
    /// Only check that the queue exists.
    pub passive: bool,
    /// Keep the queue over a restart of the broker.
    pub durable: bool,
    /// Reserve the queue for this connection.
    pub exclusive: bool,
    /// Delete the queue when nothing consumes from it any longer.
    pub auto_delete: bool,
    /// Do not wait for the broker's reply.
    pub nowait: bool,
}

/// A binding to an exchange or a queue.
#[derive(Debug)]
pub struct BindingDefinition {
    /// The exchange that messages come from.
    pub source: String,
    /// The routing key of the binding.
    pub routing_key: String,
    /// The arguments of the binding.
    pub arguments: FieldTable,
}

/// A binding, in contracts.
pub struct BindingView {
    pub source: Seq<char>,
    pub routing_key: Seq<char>,
    pub arguments: TableView,
}

impl View for BindingDefinition {
    type V = BindingView;

    open spec fn view(&self) -> BindingView {
        BindingView {
            source: self.source@,
            routing_key: self.routing_key@,
            arguments: self.arguments@,
        }
    }
}

impl BindingView {
    /// Is this the binding that these arguments describe?
    pub open spec fn described_by(
        self,
        source: Seq<char>,
        routing_key: Seq<char>,
        arguments: TableView,
    ) -> bool {
        &&& self.source == source
        &&& self.routing_key == routing_key
        &&& crate::types::table_equal(self.arguments, arguments)
    }
}

/// The view of the arguments of a declaration.
pub open spec fn arguments_view(arguments: Option<FieldTable>) -> Option<TableView> {
    match arguments {
        Some(table) => Some(table@),
        None => None,
    }
}

/// The views of some bindings.
pub open spec fn bindings_view(bindings: Seq<BindingDefinition>) -> Seq<BindingView> {
    bindings.map_values(|b: BindingDefinition| b@)
}

/// Some bindings without those that these arguments describe.
pub open spec fn without_binding(
    bindings: Seq<BindingView>,
    source: Seq<char>,
    routing_key: Seq<char>,
    arguments: TableView,
) -> Seq<BindingView> {
    bindings.filter(|b: BindingView| !b.described_by(source, routing_key, arguments))
}

/// A binding stays unless its source, its routing key and its arguments are all those that are given.
proof fn lemma_without_binding(
    bindings: Seq<BindingView>,
    source: Seq<char>,
    routing_key: Seq<char>,
    arguments: TableView,
)
    ensures
        without_binding(bindings, source, routing_key, arguments) == bindings.filter(
            |b: BindingView|
                b.source != source || b.routing_key != routing_key || !crate::types::table_equal(
                    b.arguments,
                    arguments,
                ),
        ),
{
    let described = |b: BindingView| !b.described_by(source, routing_key, arguments);
    let differs = |b: BindingView|
        b.source != source || b.routing_key != routing_key || !crate::types::table_equal(
            b.arguments,
            arguments,
        );
    assert(described =~= differs);
}

impl Clone for BindingDefinition {
    fn clone(&self) -> (copy: Self)
        ensures
            copy@ == self@,
    {
        BindingDefinition {
            source: self.source.clone(),
            routing_key: self.routing_key.clone(),
            arguments: self.arguments.clone(),
        }
    }
}

fn clone_bindings(bindings: &Vec<BindingDefinition>) -> (copy: Vec<BindingDefinition>)
    ensures
        bindings_view(copy@) == bindings_view(bindings@),
{
    let mut copy: Vec<BindingDefinition> = Vec::new();
    let mut i: usize = 0;
    while i < bindings.len()
        invariant
            i == copy@.len(),
            i <= bindings@.len(),
            forall|j: int| 0 <= j < i ==> (#[trigger] copy@[j])@ == bindings@[j]@,
        decreases bindings@.len() - i,
    {
        copy.push(bindings[i].clone());
        i = i + 1;
    }
    assert(bindings_view(copy@) =~= bindings_view(bindings@));
    copy
}

/// Drop the bindings that these arguments describe, and keep the others in their order.
fn remove_binding(
    bindings: &mut Vec<BindingDefinition>,
    source: &str,
    routing_key: &str,
    arguments: &FieldTable,
)
    ensures
        bindings_view(final(bindings)@) == without_binding(
            bindings_view(old(bindings)@),
            source@,
            routing_key@,
            arguments@,
        ),
{
    let ghost all = bindings_view(bindings@);
    let ghost keep = |b: BindingView| !b.described_by(source@, routing_key@, arguments@);
    let source = source.to_owned();
    let routing_key = routing_key.to_owned();
    let ghost mut seen: int = 0;
    let mut i: usize = 0;
    proof {
        reveal(Seq::filter);
        assert(all.take(0) =~= Seq::empty());
        assert(bindings_view(bindings@).take(0) =~= Seq::empty());
        assert(all.skip(0) =~= all);
    }
    while i < bindings.len()
        invariant
            keep == (|b: BindingView| !b.described_by(source@, routing_key@, arguments@)),
            0 <= seen <= all.len(),
            i <= bindings@.len(),
            bindings@.len() - i == all.len() - seen,
            bindings_view(bindings@).take(i as int) == all.take(seen).filter(keep),
            bindings_view(bindings@).skip(i as int) == all.skip(seen),
        decreases bindings@.len() - i,
    {
        let ghost now = bindings_view(bindings@);
        let binding = &bindings[i];
        let gone: bool = binding.source == source && binding.routing_key == routing_key && table_eq(
            &binding.arguments,
            arguments,
        );
        proof {
            reveal(Seq::filter);
            assert(now.skip(i as int)[0] == now[i as int]);
            assert(all.skip(seen)[0] == all[seen]);
            assert(now[i as int] == bindings@[i as int]@);
            assert(gone == !keep(all[seen]));
            assert(all.take(seen + 1).drop_last() =~= all.take(seen));
        }
        if gone {
            bindings.remove(i);
            proof {
                let then = bindings_view(bindings@);
                assert(then.take(i as int) =~= now.take(i as int));
                assert(then.skip(i as int) =~= now.skip(i as int).skip(1));
            }
        } else {
            proof {
                assert(now.take(i + 1) =~= now.take(i as int).push(now[i as int]));
                assert(now.skip(i + 1) =~= now.skip(i as int).skip(1));
            }
            i = i + 1;
        }
        proof {
            assert(all.skip(seen + 1) =~= all.skip(seen).skip(1));
            seen = seen + 1;
        }
    }
    proof {
        assert(all.take(seen) =~= all);
        assert(bindings_view(bindings@).take(i as int) =~= bindings_view(bindings@));
    }
}

/// An exchange as the connection knows it.
#[derive(Debug)]
pub struct ExchangeDefinition {
    /// Its name.
    pub name: String,
    /// How it routes, if it was declared.
    pub kind: Option<ExchangeKind>,
    /// The flags that it was declared with, if it was declared.
    pub options: Option<ExchangeDeclareOptions>,
    /// The arguments that it was declared with, if it was declared.
    pub arguments: Option<FieldTable>,
    /// What is bound to it.
    pub bindings: Vec<BindingDefinition>,
}

/// An exchange, in contracts.
pub struct ExchangeView {
    pub name: Seq<char>,
    pub kind: Option<KindView>,
    pub options: Option<ExchangeDeclareOptions>,
    pub arguments: Option<TableView>,
    pub bindings: Seq<BindingView>,
}

impl View for ExchangeDefinition {
    type V = ExchangeView;

    open spec fn view(&self) -> ExchangeView {
        ExchangeView {
            name: self.name@,
            kind: match self.kind {
                Some(kind) => Some(kind@),
                None => None,
            },
            options: self.options,
            arguments: arguments_view(self.arguments),
            bindings: bindings_view(self.bindings@),
        }
    }
}

impl ExchangeView {
    /// An exchange of which only the name is known.
    pub open spec fn undeclared(name: Seq<char>) -> ExchangeView {
        ExchangeView {
            name,
            kind: None,
            options: None,
            arguments: None,
            bindings: Seq::empty(),
        }
    }

    /// The same exchange, declared in this way. Its bindings stay.
    pub open spec fn declared_as(
        self,
        kind: KindView,
        options: ExchangeDeclareOptions,
        arguments: TableView,
    ) -> ExchangeView {
        ExchangeView {
            kind: Some(kind),
            options: Some(options),
            arguments: Some(arguments),
            ..self
        }
    }

    /// The same exchange with one more binding.
    pub open spec fn bound(self, binding: BindingView) -> ExchangeView {
        ExchangeView { bindings: self.bindings.push(binding), ..self }
    }

    /// The same exchange without the bindings that these arguments describe.
    pub open spec fn unbound(
        self,
        source: Seq<char>,
        routing_key: Seq<char>,
        arguments: TableView,
    ) -> ExchangeView {
        ExchangeView {
            bindings: without_binding(self.bindings, source, routing_key, arguments),
            ..self
        }
    }
}

impl ExchangeDefinition {
    /// An exchange that has been declared and has no bindings.
    pub fn declared(
        name: String,
        kind: ExchangeKind,
        options: ExchangeDeclareOptions,
        arguments: FieldTable,
    ) -> (definition: ExchangeDefinition)
        ensures
            definition@ == ExchangeView::undeclared(name@).declared_as(kind@, options, arguments@),
            definition.name == name,
            definition.kind == Some(kind),
            definition.options == Some(options),
            definition.arguments == Some(arguments),
            definition.bindings@.len() == 0,
    {
        let definition = ExchangeDefinition {
            name,
            kind: Some(kind),
            options: Some(options),
            arguments: Some(arguments),
            bindings: Vec::new(),
        };
        assert(definition@.bindings =~= Seq::empty());
        definition
    }

    /// An exchange of which only the name is known.
    pub fn undeclared(name: String) -> (definition: ExchangeDefinition)
        ensures
            definition@ == ExchangeView::undeclared(name@),
            definition.name == name,
            definition.kind is None,
            definition.options is None,
            definition.arguments is None,
            definition.bindings@.len() == 0,
    {
        let definition = ExchangeDefinition {
            name,
            kind: None,
            options: None,
            arguments: None,
            bindings: Vec::new(),
        };
        assert(definition@.bindings =~= Seq::empty());
        definition
    }

    /// Record a declaration.
    pub fn set_declared(
        &mut self,
        kind: ExchangeKind,
        options: ExchangeDeclareOptions,
        arguments: FieldTable,
    )
        ensures
            final(self)@ == old(self)@.declared_as(kind@, options, arguments@),
            final(self).name == old(self).name,
            final(self).kind == Some(kind),
            final(self).options == Some(options),
            final(self).arguments == Some(arguments),
            final(self).bindings == old(self).bindings,
    {
        self.kind = Some(kind);
        self.options = Some(options);
        self.arguments = Some(arguments);
    }

    /// Record a binding.
    pub fn register_binding(&mut self, source: String, routing_key: String, arguments: FieldTable)
        ensures
            final(self)@ == old(self)@.bound(
                BindingView {
                    source: source@,
                    routing_key: routing_key@,
                    arguments: arguments@,
                },
            ),
            final(self).bindings@ == old(self).bindings@.push(
                BindingDefinition { source, routing_key, arguments },
            ),
            final(self).name == old(self).name,
            final(self).kind == old(self).kind,
            final(self).options == old(self).options,
            final(self).arguments == old(self).arguments,
    {
        let ghost before = self@.bindings;
        let binding = BindingDefinition { source, routing_key, arguments };
        self.bindings.push(binding);
        assert(self@.bindings =~= before.push(binding@));
    }

    /// Forget the bindings that these arguments describe.
    pub fn deregister_binding(&mut self, source: &str, routing_key: &str, arguments: &FieldTable)
        ensures
            final(self)@ == old(self)@.unbound(source@, routing_key@, arguments@),
            final(self)@.bindings == old(self)@.bindings.filter(
                |b: BindingView|
                    b.source != source@ || b.routing_key != routing_key@
                        || !crate::types::table_equal(b.arguments, arguments@),
            ),
            final(self).name == old(self).name,
            final(self).kind == old(self).kind,
            final(self).options == old(self).options,
            final(self).arguments == old(self).arguments,
    {
        let ghost before = self@.bindings;
        remove_binding(&mut self.bindings, source, routing_key, arguments);
        proof {
            lemma_without_binding(before, source@, routing_key@, arguments@);
        }
    }
}

impl Clone for ExchangeDefinition {
    fn clone(&self) -> (copy: Self)
        ensures
            copy@ == self@,
    {
        ExchangeDefinition {
            name: self.name.clone(),
            kind: match &self.kind {
                Some(kind) => Some(kind.clone()),
                None => None,
            },
            options: self.options,
            arguments: match &self.arguments {
                Some(arguments) => Some(arguments.clone()),
                None => None,
            },
            bindings: clone_bindings(&self.bindings),
        }
    }
}

/// A queue as the connection knows it.
#[derive(Debug)]
pub struct QueueDefinition {
    /// Its name.
    pub name: String,
    /// The flags that it was declared with, if it was declared.
    pub options: Option<QueueDeclareOptions>,
    /// The arguments that it was declared with, if it was declared.
    pub arguments: Option<FieldTable>,
    /// What is bound to it.
    pub bindings: Vec<BindingDefinition>,
}

/// A queue, in contracts.
pub struct QueueView {
    pub name: Seq<char>,
    pub options: Option<QueueDeclareOptions>,
    pub arguments: Option<TableView>,
    pub bindings: Seq<BindingView>,
}

impl View for QueueDefinition {
    type V = QueueView;

    open spec fn view(&self) -> QueueView {
        QueueView {
            name: self.name@,
            options: self.options,
            arguments: arguments_view(self.arguments),
            bindings: bindings_view(self.bindings@),
        }
    }
}

impl QueueView {
    /// A queue of which only the name is known.
    pub open spec fn undeclared(name: Seq<char>) -> QueueView {
        QueueView {
            name,
            options: None,
            arguments: None,
            bindings: Seq::empty(),
        }
    }

    /// The same queue, declared in this way. Its bindings stay.
    pub open spec fn declared_as(
        self,
        options: QueueDeclareOptions,
        arguments: TableView,
    ) -> QueueView {
        QueueView {
            options: Some(options),
            arguments: Some(arguments),
            ..self
        }
    }

    /// The same queue with one more binding.
    pub open spec fn bound(self, binding: BindingView) -> QueueView {
        QueueView { bindings: self.bindings.push(binding), ..self }
    }

    /// The same queue without the bindings that these arguments describe.
    pub open spec fn unbound(
        self,
        source: Seq<char>,
        routing_key: Seq<char>,
        arguments: TableView,
    ) -> QueueView {
        QueueView {
            bindings: without_binding(self.bindings, source, routing_key, arguments),
            ..self
        }
    }
}

impl QueueDefinition {
    /// A queue that has been declared and has no bindings.
    pub fn declared(
        name: String,
        options: QueueDeclareOptions,
        arguments: FieldTable,
    ) -> (definition: QueueDefinition)
        ensures
            definition@ == QueueView::undeclared(name@).declared_as(options, arguments@),
            definition.name == name,
            definition.options == Some(options),
            definition.arguments == Some(arguments),
            definition.bindings@.len() == 0,
    {
        let definition = QueueDefinition {
            name,
            options: Some(options),
            arguments: Some(arguments),
            bindings: Vec::new(),
        };
        assert(definition@.bindings =~= Seq::empty());
        definition
    }

    /// A queue of which only the name is known.
    pub fn undeclared(name: String) -> (definition: QueueDefinition)
        ensures
            definition@ == QueueView::undeclared(name@),
            definition.name == name,
            definition.options is None,
            definition.arguments is None,
            definition.bindings@.len() == 0,
    {
        let definition = QueueDefinition {
            name,
            options: None,
            arguments: None,
            bindings: Vec::new(),
        };
        assert(definition@.bindings =~= Seq::empty());
        definition
    }

    /// Record a declaration.
    pub fn set_declared(
        &mut self,
        options: QueueDeclareOptions,
        arguments: FieldTable,
    )
        ensures
            final(self)@ == old(self)@.declared_as(options, arguments@),
            final(self).name == old(self).name,
            final(self).options == Some(options),
            final(self).arguments == Some(arguments),
            final(self).bindings == old(self).bindings,
    {
        self.options = Some(options);
        self.arguments = Some(arguments);
    }

    /// Record a binding.
    pub fn register_binding(&mut self, source: String, routing_key: String, arguments: FieldTable)
        ensures
            final(self)@ == old(self)@.bound(
                BindingView {
                    source: source@,
                    routing_key: routing_key@,
                    arguments: arguments@,
                },
            ),
            final(self).bindings@ == old(self).bindings@.push(
                BindingDefinition { source, routing_key, arguments },
            ),
            final(self).name == old(self).name,
            final(self).options == old(self).options,
            final(self).arguments == old(self).arguments,
    {
        let ghost before = self@.bindings;
        let binding = BindingDefinition { source, routing_key, arguments };
        self.bindings.push(binding);
        assert(self@.bindings =~= before.push(binding@));
    }

    /// Forget the bindings that these arguments describe.
    pub fn deregister_binding(&mut self, source: &str, routing_key: &str, arguments: &FieldTable)
        ensures
            final(self)@ == old(self)@.unbound(source@, routing_key@, arguments@),
            final(self)@.bindings == old(self)@.bindings.filter(
                |b: BindingView|
                    b.source != source@ || b.routing_key != routing_key@
                        || !crate::types::table_equal(b.arguments, arguments@),
            ),
            final(self).name == old(self).name,
            final(self).options == old(self).options,
            final(self).arguments == old(self).arguments,
    {
        let ghost before = self@.bindings;
        remove_binding(&mut self.bindings, source, routing_key, arguments);
        proof {
            lemma_without_binding(before, source@, routing_key@, arguments@);
        }
    }
}

impl Clone for QueueDefinition {
    fn clone(&self) -> (copy: Self)
        ensures
            copy@ == self@,
    {
        QueueDefinition {
            name: self.name.clone(),
            options: self.options,
            arguments: match &self.arguments {
                Some(arguments) => Some(arguments.clone()),
                None => None,
            },
            bindings: clone_bindings(&self.bindings),
        }
    }
}

} // verus!
