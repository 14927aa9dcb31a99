//! AMQP field values and tables.
use vstd::prelude::*;

verus! {

/// A decimal number, `value` divided by ten to the power of `scale`.
#[derive(Clone, Copy, Debug, PartialEq, Eq, Structural)]
pub struct DecimalValue {
    /// The number of decimal digits behind the point.
    pub scale: u8,
    /// The digits.
    pub value: u32,
}

/// A value in a field table.
#[derive(Debug)]
pub enum AMQPValue {
    /// A bool.
    Boolean(bool),
    /// An `i8`.
    ShortShortInt(i8),
    /// A `u8`.
    ShortShortUInt(u8),
    /// An `i16`.
    ShortInt(i16),
    /// A `u16`.
    ShortUInt(u16),
    /// An `i32`.
    LongInt(i32),
    /// A `u32`.
    LongUInt(u32),
    /// An `i64`.
    LongLongInt(i64),
    /// The bits of an IEEE 754 binary32 number.
    Float(u32),
    /// The bits of an IEEE 754 binary64 number.
    Double(u64),
    /// A decimal number.
    DecimalValue(DecimalValue),
    /// A short text.
    ShortString(String),
    /// A long text, as bytes.
    LongString(Vec<u8>),
    /// A list of values.
    FieldArray(Vec<AMQPValue>),
    /// Seconds since the Unix epoch.
    Timestamp(u64),
    /// A nested table.
    FieldTable(FieldTable),
    /// Bytes.
    ByteArray(Vec<u8>),
    /// No value.
    Void,
}

/// Named values. No name occurs twice.
#[derive(Debug)]
pub struct FieldTable {
    entries: Vec<(String, AMQPValue)>,
}

/// A field value, in contracts.
pub enum ValueView {
    Boolean(bool),
    ShortShortInt(i8),
    ShortShortUInt(u8),
    ShortInt(i16),
    ShortUInt(u16),
    LongInt(i32),
    LongUInt(u32),
    LongLongInt(i64),
    Float(u32),
    Double(u64),
    DecimalValue(DecimalValue),
    ShortString(Seq<char>),
    LongString(Seq<u8>),
    FieldArray(Seq<ValueView>),
    Timestamp(u64),
    FieldTable(Seq<(Seq<char>, ValueView)>),
    ByteArray(Seq<u8>),
    Void,
}

/// A field table, in contracts: its entries in the order in which their names came in.
pub type TableView = Seq<(Seq<char>, ValueView)>;

/// The view of a value.
pub open spec fn value_view(value: AMQPValue) -> ValueView
    decreases value,
{
    match value {
        AMQPValue::Boolean(v) => ValueView::Boolean(v),
        AMQPValue::ShortShortInt(v) => ValueView::ShortShortInt(v),
        AMQPValue::ShortShortUInt(v) => ValueView::ShortShortUInt(v),
        AMQPValue::ShortInt(v) => ValueView::ShortInt(v),
        AMQPValue::ShortUInt(v) => ValueView::ShortUInt(v),
        AMQPValue::LongInt(v) => ValueView::LongInt(v),
        AMQPValue::LongUInt(v) => ValueView::LongUInt(v),
        AMQPValue::LongLongInt(v) => ValueView::LongLongInt(v),
        AMQPValue::Float(v) => ValueView::Float(v),
        AMQPValue::Double(v) => ValueView::Double(v),
        AMQPValue::DecimalValue(v) => ValueView::DecimalValue(v),
        AMQPValue::ShortString(v) => ValueView::ShortString(v@),
        AMQPValue::LongString(v) => ValueView::LongString(v@),
        AMQPValue::FieldArray(v) => ValueView::FieldArray(array_view(v@)),
        AMQPValue::Timestamp(v) => ValueView::Timestamp(v),
        AMQPValue::FieldTable(v) => ValueView::FieldTable(table_view(v)),
        AMQPValue::ByteArray(v) => ValueView::ByteArray(v@),
        AMQPValue::Void => ValueView::Void,
    }
}

/// The view of a list of values.
pub open spec fn array_view(values: Seq<AMQPValue>) -> Seq<ValueView>
    decreases values,
{
    Seq::new(
        values.len(),
        |i: int|
            if 0 <= i < values.len() {
                value_view(values[i])
            } else {
                arbitrary()
            },
    )
}

/// The view of a table.
pub closed spec fn table_view(table: FieldTable) -> TableView
    decreases table,
{
    Seq::new(
        table.entries@.len(),
        |i: int|
            if 0 <= i < table.entries@.len() {
                (table.entries@[i].0@, value_view(table.entries@[i].1))
            } else {
                arbitrary()
            },
    )
}

impl View for AMQPValue {
    type V = ValueView;

    open spec fn view(&self) -> ValueView {
        value_view(*self)
    }
}

impl View for FieldTable {
    type V = TableView;

    open spec fn view(&self) -> TableView {
        table_view(*self)
    }
}

/// Does an entry of the table have this name?
pub open spec fn has_name(table: TableView, name: Seq<char>) -> bool {
    exists|i: int| 0 <= i < table.len() && #[trigger] table[i].0 == name
}

/// No two entries of the table have the same name.
pub open spec fn names_distinct(table: TableView) -> bool {
    forall|i: int, j: int|
        0 <= i < j < table.len() ==> (#[trigger] table[i]).0 != (#[trigger] table[j]).0
}

/// The table with a value for a name: in the place of the value that the name had, or else behind
/// all others.
pub open spec fn with_entry(table: TableView, name: Seq<char>, value: ValueView) -> TableView {
    if has_name(table, name) {
        let i = choose|i: int| 0 <= i < table.len() && #[trigger] table[i].0 == name;
        table.update(i, (name, value))
    } else {
        table.push((name, value))
    }
}

/// Where the entry with a name stands.
fn position(entries: &Vec<(String, AMQPValue)>, name: &String) -> (found: Option<usize>)
    ensures
        match found {
            Some(i) => i < entries@.len() && entries@[i as int].0@ == name@,
            None => forall|i: int| 0 <= i < entries@.len() ==> (#[trigger] entries@[i]).0@ != name@,
        },
{
    let mut i: usize = 0;
    while i < entries.len()
        invariant
            i <= entries@.len(),
            forall|j: int| 0 <= j < i ==> (#[trigger] entries@[j]).0@ != name@,
        decreases entries@.len() - i,
    {
        if entries[i].0 == *name {
            return Some(i);
        }
        i = i + 1;
    }
    None
}

impl FieldTable {
    #[verifier::type_invariant]
    spec fn inv(self) -> bool {
        names_distinct(table_view(self))
    }

    /// An empty table.
    pub fn new() -> (table: FieldTable)
        ensures
            table@ == TableView::empty(),
    {
        FieldTable { entries: Vec::new() }
    }

    /// The names and values.
    pub fn entries(&self) -> (entries: &Vec<(String, AMQPValue)>)
        ensures
            names_distinct(self@),
            decreases_to!(self => entries@),
            entries@.len() == self@.len(),
            forall|i: int|
                0 <= i < entries@.len() ==> (#[trigger] entries@[i]).0@ == self@[i].0
                    && entries@[i].1@ == self@[i].1,
    {
        proof {
            use_type_invariant(self);
        }
        &self.entries
    }

    /// Give a name a value.
    pub fn insert(&mut self, name: String, value: AMQPValue)
        ensures
            names_distinct(final(self)@),
            final(self)@ == with_entry(old(self)@, name@, value@),
    {
        proof {
            use_type_invariant(&*self);
        }
        let ghost before = self@;
        let mut entries: Vec<(String, AMQPValue)> = Vec::new();
        std::mem::swap(&mut entries, &mut self.entries);
        match position(&entries, &name) {
            Some(i) => {
                assert(before[i as int].0 == name@);
                entries.set(i, (name, value));
                assert(table_view(FieldTable { entries }) =~= before.update(
                    i as int,
                    (name@, value@),
                ));
            },
            None => {
                assert forall|i: int| 0 <= i < before.len() implies #[trigger] before[i].0
                    != name@ by {
                    assert(before[i].0 == entries@[i].0@);
                }
                entries.push((name, value));
                assert(table_view(FieldTable { entries }) =~= before.push((name@, value@)));
            },
        }
        self.entries = entries;
    }
}

impl Clone for AMQPValue {
    fn clone(&self) -> (copy: Self)
        ensures
            copy@ == self@,
        decreases self,
    {
        match self {
            AMQPValue::Boolean(v) => AMQPValue::Boolean(*v),
            AMQPValue::ShortShortInt(v) => AMQPValue::ShortShortInt(*v),
            AMQPValue::ShortShortUInt(v) => AMQPValue::ShortShortUInt(*v),
            AMQPValue::ShortInt(v) => AMQPValue::ShortInt(*v),
            AMQPValue::ShortUInt(v) => AMQPValue::ShortUInt(*v),
            AMQPValue::LongInt(v) => AMQPValue::LongInt(*v),
            AMQPValue::LongUInt(v) => AMQPValue::LongUInt(*v),
            AMQPValue::LongLongInt(v) => AMQPValue::LongLongInt(*v),
            AMQPValue::Float(v) => AMQPValue::Float(*v),
            AMQPValue::Double(v) => AMQPValue::Double(*v),
            AMQPValue::DecimalValue(v) => AMQPValue::DecimalValue(*v),
            AMQPValue::ShortString(v) => AMQPValue::ShortString(v.clone()),
            AMQPValue::LongString(v) => AMQPValue::LongString(clone_bytes(v)),
            AMQPValue::FieldArray(v) => AMQPValue::FieldArray(clone_array(v)),
            AMQPValue::Timestamp(v) => AMQPValue::Timestamp(*v),
            AMQPValue::FieldTable(v) => AMQPValue::FieldTable(v.clone()),
            AMQPValue::ByteArray(v) => AMQPValue::ByteArray(clone_bytes(v)),
            AMQPValue::Void => AMQPValue::Void,
        }
    }
}

fn clone_bytes(bytes: &Vec<u8>) -> (copy: Vec<u8>)
    ensures
        copy@ == bytes@,
{
    let copy = bytes.clone();
    assert(copy@ =~= bytes@);
    copy
}

fn clone_array(values: &Vec<AMQPValue>) -> (copy: Vec<AMQPValue>)
    ensures
        array_view(copy@) == array_view(values@),
    decreases values,
{
    let mut copy: Vec<AMQPValue> = Vec::new();
    let mut i: usize = 0;
    while i < values.len()
        invariant
            i == copy@.len(),
            i <= values@.len(),
            forall|j: int| 0 <= j < i ==> (#[trigger] copy@[j])@ == values@[j]@,
        decreases values@.len() - i,
    {
        assert(decreases_to!(values => values@));
        assert(decreases_to!(values@ => values@[i as int]));
        copy.push(values[i].clone());
        i = i + 1;
    }
    assert(array_view(copy@) =~= array_view(values@));
    copy
}

impl Clone for FieldTable {
    fn clone(&self) -> (copy: Self)
        ensures
            copy@ == self@,
        decreases self,
    {
        proof {
            use_type_invariant(self);
        }
        let mut entries: Vec<(String, AMQPValue)> = Vec::new();
        let mut i: usize = 0;
        while i < self.entries.len()
            invariant
                i == entries@.len(),
                i <= self.entries@.len(),
                forall|j: int|
                    0 <= j < i ==> (#[trigger] entries@[j]).0@ == self.entries@[j].0@
                        && entries@[j].1@ == self.entries@[j].1@,
            decreases self.entries@.len() - i,
        {
            assert(decreases_to!(self => self.entries));
            assert(decreases_to!(self.entries => self.entries@));
            assert(decreases_to!(self.entries@ => self.entries@[i as int]));
            assert(decreases_to!(self.entries@[i as int] => self.entries@[i as int].1));
            entries.push((self.entries[i].0.clone(), self.entries[i].1.clone()));
            i = i + 1;
        }
        assert(table_view(FieldTable { entries }) =~= table_view(*self));
        FieldTable { entries }
    }
}

/// Are these the bits of two binary32 numbers that compare equal? A NaN equals nothing, and the two
/// zeros equal each other.
pub open spec fn float_equal(a: u32, b: u32) -> bool {
    let (m, n) = (a % 0x8000_0000, b % 0x8000_0000);
    m <= 0x7f80_0000 && n <= 0x7f80_0000 && (a == b || (m == 0 && n == 0))
}

/// Are these the bits of two binary64 numbers that compare equal?
pub open spec fn double_equal(a: u64, b: u64) -> bool {
    let (m, n) = (a % 0x8000_0000_0000_0000, b % 0x8000_0000_0000_0000);
    m <= 0x7ff0_0000_0000_0000 && n <= 0x7ff0_0000_0000_0000 && (a == b || (m == 0 && n == 0))
}

/// Do two values compare equal? Numbers compare by value, tables without regard to the order of
/// their entries.
pub open spec fn value_equal(a: ValueView, b: ValueView) -> bool
    decreases a,
{
    match (a, b) {
        (ValueView::Float(x), ValueView::Float(y)) => float_equal(x, y),
        (ValueView::Double(x), ValueView::Double(y)) => double_equal(x, y),
        (ValueView::FieldArray(x), ValueView::FieldArray(y)) => array_equal(x, y),
        (ValueView::FieldTable(x), ValueView::FieldTable(y)) => table_equal(x, y),
        (ValueView::FieldArray(_), _) => false,
        (ValueView::FieldTable(_), _) => false,
        _ => a == b,
    }
}

/// Do two lists hold equal values in the same order?
pub open spec fn array_equal(a: Seq<ValueView>, b: Seq<ValueView>) -> bool
    decreases a,
{
    &&& a.len() == b.len()
    &&& forall|i: int| #![trigger a[i]] 0 <= i < a.len() ==> value_equal(a[i], b[i])
}

/// Do two tables give equal values to the same names?
pub open spec fn table_equal(a: TableView, b: TableView) -> bool
    decreases a,
{
    &&& a.len() == b.len()
    &&& forall|i: int|
        #![trigger a[i]]
        0 <= i < a.len() ==> gives(b, a[i])
}

/// Does a table give the name of an entry an equal value?
pub open spec fn gives(table: TableView, entry: (Seq<char>, ValueView)) -> bool
    decreases entry,
{
    exists|j: int|
        #![trigger table[j]]
        0 <= j < table.len() && table[j].0 == entry.0 && value_equal(entry.1, table[j].1)
}

fn float_eq(a: u32, b: u32) -> (equal: bool)
    ensures
        equal == float_equal(a, b),
{
    let m: u32 = a % 0x8000_0000;
    let n: u32 = b % 0x8000_0000;
    m <= 0x7f80_0000 && n <= 0x7f80_0000 && (a == b || (m == 0 && n == 0))
}

fn double_eq(a: u64, b: u64) -> (equal: bool)
    ensures
        equal == double_equal(a, b),
{
    let m: u64 = a % 0x8000_0000_0000_0000;
    let n: u64 = b % 0x8000_0000_0000_0000;
    m <= 0x7ff0_0000_0000_0000 && n <= 0x7ff0_0000_0000_0000 && (a == b || (m == 0 && n == 0))
}

fn bytes_eq(a: &Vec<u8>, b: &Vec<u8>) -> (equal: bool)
    ensures
        equal == (a@ == b@),
{
    if a.len() != b.len() {
        return false;
    }
    let mut i: usize = 0;
    while i < a.len()
        invariant
            a@.len() == b@.len(),
            i <= a@.len(),
            forall|j: int| 0 <= j < i ==> a@[j] == b@[j],
        decreases a@.len() - i,
    {
        if a[i] != b[i] {
            return false;
        }
        i = i + 1;
    }
    assert(a@ =~= b@);
    true
}

fn value_eq(a: &AMQPValue, b: &AMQPValue) -> (equal: bool)
    ensures
        equal == value_equal(a@, b@),
    decreases a,
{
    match (a, b) {
        (AMQPValue::Boolean(x), AMQPValue::Boolean(y)) => *x == *y,
        (AMQPValue::ShortShortInt(x), AMQPValue::ShortShortInt(y)) => *x == *y,
        (AMQPValue::ShortShortUInt(x), AMQPValue::ShortShortUInt(y)) => *x == *y,
        (AMQPValue::ShortInt(x), AMQPValue::ShortInt(y)) => *x == *y,
        (AMQPValue::ShortUInt(x), AMQPValue::ShortUInt(y)) => *x == *y,
        (AMQPValue::LongInt(x), AMQPValue::LongInt(y)) => *x == *y,
        (AMQPValue::LongUInt(x), AMQPValue::LongUInt(y)) => *x == *y,
        (AMQPValue::LongLongInt(x), AMQPValue::LongLongInt(y)) => *x == *y,
        (AMQPValue::Float(x), AMQPValue::Float(y)) => float_eq(*x, *y),
        (AMQPValue::Double(x), AMQPValue::Double(y)) => double_eq(*x, *y),
        (AMQPValue::DecimalValue(x), AMQPValue::DecimalValue(y)) => {
            x.scale == y.scale && x.value == y.value
        },
        (AMQPValue::ShortString(x), AMQPValue::ShortString(y)) => *x == *y,
        (AMQPValue::LongString(x), AMQPValue::LongString(y)) => bytes_eq(x, y),
        (AMQPValue::FieldArray(x), AMQPValue::FieldArray(y)) => array_eq(x, y),
        (AMQPValue::Timestamp(x), AMQPValue::Timestamp(y)) => *x == *y,
        (AMQPValue::FieldTable(x), AMQPValue::FieldTable(y)) => table_eq(x, y),
        (AMQPValue::ByteArray(x), AMQPValue::ByteArray(y)) => bytes_eq(x, y),
        (AMQPValue::Void, AMQPValue::Void) => true,
        _ => false,
    }
}

fn array_eq(a: &Vec<AMQPValue>, b: &Vec<AMQPValue>) -> (equal: bool)
    ensures
        equal == array_equal(array_view(a@), array_view(b@)),
    decreases a,
{
    if a.len() != b.len() {
        return false;
    }
    let ghost (x, y) = (array_view(a@), array_view(b@));
    let mut i: usize = 0;
    while i < a.len()
        invariant
            x == array_view(a@),
            y == array_view(b@),
            a@.len() == b@.len(),
            i <= a@.len(),
            forall|j: int| #![trigger x[j]] 0 <= j < i ==> value_equal(x[j], y[j]),
        decreases a@.len() - i,
    {
        assert(decreases_to!(a => a@));
        assert(decreases_to!(a@ => a@[i as int]));
        assert(x[i as int] == a@[i as int]@);
        assert(y[i as int] == b@[i as int]@);
        if !value_eq(&a[i], &b[i]) {
            return false;
        }
        i = i + 1;
    }
    true
}

/// Do two tables compare equal?
pub fn table_eq(a: &FieldTable, b: &FieldTable) -> (equal: bool)
    ensures
        equal == table_equal(a@, b@),
    decreases a,
{
    proof {
        use_type_invariant(b);
    }
    if a.entries.len() != b.entries.len() {
        return false;
    }
    let ghost (x, y) = (a@, b@);
    let mut i: usize = 0;
    while i < a.entries.len()
        invariant
            x == a@,
            y == b@,
            names_distinct(y),
            a.entries@.len() == b.entries@.len(),
            i <= a.entries@.len(),
            forall|k: int|
                #![trigger x[k]]
                0 <= k < i ==> gives(y, x[k]),
        decreases a.entries@.len() - i,
    {
        assert(decreases_to!(a => a.entries));
        assert(decreases_to!(a.entries => a.entries@));
        assert(decreases_to!(a.entries@ => a.entries@[i as int]));
        assert(decreases_to!(a.entries@[i as int] => a.entries@[i as int].1));
        assert(x[i as int] == (a.entries@[i as int].0@, a.entries@[i as int].1@));
        match position(&b.entries, &a.entries[i].0) {
            None => {
                assert forall|j: int| 0 <= j < y.len() implies (#[trigger] y[j]).0
                    != x[i as int].0 by {
                    assert(y[j].0 == b.entries@[j].0@);
                }
                return false;
            },
            Some(k) => {
                assert(y[k as int] == (b.entries@[k as int].0@, b.entries@[k as int].1@));
                if !value_eq(&a.entries[i].1, &b.entries[k].1) {
                    return false;
                }
            },
        }
        i = i + 1;
    }
    true
}

} // verus!
