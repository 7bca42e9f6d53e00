use crate::model::{
    ValueModel, json_array, json_clone, json_string, json_u64, json_encoding, value_model,
};
use vstd::prelude::*;

verus! {

/// The term a database reference renders to: `[14, [name]]`.
pub open spec fn database_term(name: Seq<char>) -> ValueModel {
    ValueModel::Arr(seq![ValueModel::Num(14), ValueModel::Arr(seq![ValueModel::Str(name)])])
}

/// The term a table reference renders to: `[15, [db, name]]`.
pub open spec fn table_term(db: ValueModel, name: Seq<char>) -> ValueModel {
    ValueModel::Arr(seq![ValueModel::Num(15), ValueModel::Arr(seq![db, ValueModel::Str(name)])])
}

/// The term a filter renders to: `[39, [source, predicate]]`.
pub open spec fn filter_term(source: ValueModel, predicate: ValueModel) -> ValueModel {
    ValueModel::Arr(seq![ValueModel::Num(39), ValueModel::Arr(seq![source, predicate])])
}

/// The term an insertion renders to: `[56, [table, object]]`.
pub open spec fn insert_term(table: ValueModel, object: ValueModel) -> ValueModel {
    ValueModel::Arr(seq![ValueModel::Num(56), ValueModel::Arr(seq![table, object])])
}

/// A query node: anything that can render itself as a structured-value term.
pub trait Reql {
    /// The rendered term, as a mathematical value tree.
    spec fn term(&self) -> ValueModel;

    /// Render this query node as a structured value. Rendering is pure and
    /// never fails: the result is exactly the node's term.
    fn as_json(&self) -> (r: serde_json::Value)
        ensures
            value_model(r) == self.term(),
    ;
}

/// A query node that may stand as the sequence operand of a filter.
pub trait Sequence: Reql + Sized {
    /// Narrow this sequence to the elements matching `predicate`, consuming
    /// both operands.
    fn filter<O: Object>(self, predicate: O) -> (r: Filter<Self, O>)
        ensures
            r.term() == filter_term(self.term(), predicate.term()),
    {
        Filter { source: self, predicate }
    }
}

/// A query node that may stand as a filter predicate or an insert payload.
pub trait Object: Reql {
}

/// A reference to a database, by name. Renders with opcode 14.
pub struct Database {
    name: String,
}

/// A reference to a table of a database, by name. Renders with opcode 15.
pub struct Table {
    name: String,
    db: Database,
}

/// A filter of a sequence by a predicate object. Renders with opcode 39,
/// source first, predicate second.
pub struct Filter<S, O> {
    source: S,
    predicate: O,
}

/// An insertion of an object into a table. Renders with opcode 56, table
/// first, inserted object second.
pub struct Insert<O> {
    table: Table,
    object: O,
}

impl Database {
    pub fn new(database: String) -> (r: Database)
        ensures
            r.term() == database_term(database@),
    {
        Database { name: database }
    }

    pub fn table(self, table: String) -> (r: Table)
        ensures
            r.term() == table_term(self.term(), table@),
    {
        Table { name: table, db: self }
    }
}

impl Reql for Database {
    closed spec fn term(&self) -> ValueModel {
        database_term(self.name@)
    }

    fn as_json(&self) -> (r: serde_json::Value) {
        let name = json_string(self.name.clone());
        let args = array1(name);
        opcode_args(14, args)
    }
}

impl Table {
    pub fn insert<O: Object>(self, object: O) -> (r: Insert<O>)
        ensures
            r.term() == insert_term(self.term(), object.term()),
    {
        Insert { table: self, object }
    }
}

impl Reql for Table {
    closed spec fn term(&self) -> ValueModel {
        table_term(self.db.term(), self.name@)
    }

    fn as_json(&self) -> (r: serde_json::Value) {
        let db = self.db.as_json();
        let name = json_string(self.name.clone());
        let args = array2(db, name);
        opcode_args(15, args)
    }
}

impl Sequence for Table {
}

impl<S: Reql, O: Reql> Reql for Filter<S, O> {
    closed spec fn term(&self) -> ValueModel {
        filter_term(self.source.term(), self.predicate.term())
    }

    fn as_json(&self) -> (r: serde_json::Value) {
        let source = self.source.as_json();
        let predicate = self.predicate.as_json();
        let args = array2(source, predicate);
        opcode_args(39, args)
    }
}

impl<O: Reql> Reql for Insert<O> {
    closed spec fn term(&self) -> ValueModel {
        insert_term(self.table.term(), self.object.term())
    }

    fn as_json(&self) -> (r: serde_json::Value) {
        let table = self.table.as_json();
        let object = self.object.as_json();
        let args = array2(table, object);
        opcode_args(56, args)
    }
}

/// A structured value stands for itself: it renders as its own model. Any
/// structured value may serve as a filter predicate or an insert payload.
impl Reql for serde_json::Value {
    open spec fn term(&self) -> ValueModel {
        value_model(*self)
    }

    fn as_json(&self) -> (r: serde_json::Value) {
        json_clone(self)
    }
}

impl Object for serde_json::Value {
}

/// A one-element structured-value array.
pub(crate) fn array1(a: serde_json::Value) -> (r: serde_json::Value)
    ensures
        value_model(r) == ValueModel::Arr(seq![value_model(a)]),
{
    let ghost am = value_model(a);
    let mut items: Vec<serde_json::Value> = Vec::new();
    items.push(a);
    let r = json_array(items);
    proof {
        assert(items@.map_values(|v: serde_json::Value| value_model(v)) =~= seq![am]);
    }
    r
}

/// A two-element structured-value array.
pub(crate) fn array2(a: serde_json::Value, b: serde_json::Value) -> (r: serde_json::Value)
    ensures
        value_model(r) == ValueModel::Arr(seq![value_model(a), value_model(b)]),
{
    let ghost am = value_model(a);
    let ghost bm = value_model(b);
    let mut items: Vec<serde_json::Value> = Vec::new();
    items.push(a);
    items.push(b);
    let r = json_array(items);
    proof {
        assert(items@.map_values(|v: serde_json::Value| value_model(v)) =~= seq![am, bm]);
    }
    r
}

/// A three-element structured-value array.
pub(crate) fn array3(
    a: serde_json::Value,
    b: serde_json::Value,
    c: serde_json::Value,
) -> (r: serde_json::Value)
    ensures
        value_model(r) == ValueModel::Arr(
            seq![value_model(a), value_model(b), value_model(c)],
        ),
{
    let ghost am = value_model(a);
    let ghost bm = value_model(b);
    let ghost cm = value_model(c);
    let mut items: Vec<serde_json::Value> = Vec::new();
    items.push(a);
    items.push(b);
    items.push(c);
    let r = json_array(items);
    proof {
        assert(items@.map_values(|v: serde_json::Value| value_model(v)) =~= seq![am, bm, cm]);
    }
    r
}

/// An array `[opcode, args]`: one term node.
pub(crate) fn opcode_args(opcode: u64, args: serde_json::Value) -> (r: serde_json::Value)
    ensures
        value_model(r) == ValueModel::Arr(seq![ValueModel::Num(opcode), value_model(args)]),
{
    let op = json_u64(opcode);
    array2(op, args)
}

/// Law: rendering is deterministic and pure. The rendered term, and therefore
/// its JSON encoding, is a function of the query value alone: two equal
/// queries render identically, as many times as they are rendered.
pub proof fn lemma_render_deterministic<Q: Reql>(a: &Q, b: &Q)
    requires
        a == b,
    ensures
        a.term() == b.term(),
        json_encoding(a.term()) == json_encoding(b.term()),
{
}

} // verus!
