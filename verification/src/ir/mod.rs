//! The typed SSA intermediate representation, with its type and effect
//! tables.
use vstd::prelude::*;

pub mod analysis;
pub mod lowering;

use crate::syntax::ast::{BinaryOp, Literal, Path, TypeExpr};
use crate::text::{copy_string, string_eq_str, to_owned_string};

verus! {

#[derive(Debug)]
pub struct Module {
    pub name: Vec<String>,
    pub functions: Vec<Function>,
    pub types: TypeTable,
    pub effects: EffectTable,
}

#[derive(Debug)]
pub struct Function {
    pub name: String,
    pub params: Vec<Param>,
    pub ret_type: TypeId,
    pub blocks: Vec<BasicBlock>,
    pub effect_row: Vec<EffectId>,
}

#[derive(Debug)]
pub struct Param {
    pub name: String,
    pub ty: TypeId,
    pub value: ValueId,
}

#[derive(Debug)]
pub struct BasicBlock {
    pub id: BlockId,
    pub instructions: Vec<Instruction>,
    pub terminator: Terminator,
}

#[derive(Debug)]
pub struct Instruction {
    pub id: ValueId,
    pub ty: TypeId,
    pub effects: Vec<EffectId>,
    pub kind: InstKind,
}

#[derive(Debug)]
pub enum InstKind {
    Literal(Literal),
    Binary { op: BinaryOp, lhs: ValueId, rhs: ValueId },
    Call { func: FuncRef, args: Vec<ValueId> },
    Record { type_path: Option<Path>, fields: Vec<(String, ValueId)> },
    Path(Path),
    Phi { incomings: Vec<(BlockId, ValueId)> },
}

#[derive(Debug, Clone, Copy, PartialEq, Eq, Structural)]
pub enum Terminator {
    Return(Option<ValueId>),
    Branch { condition: ValueId, then_block: BlockId, else_block: BlockId },
    Jump(BlockId),
}

#[derive(Debug)]
pub enum FuncRef {
    Function(Path),
    Method(String),
}

#[derive(Debug, Copy, Clone, PartialEq, Eq, Hash, Structural)]
pub struct ValueId(pub u32);

#[derive(Debug, Copy, Clone, PartialEq, Eq, Hash, Structural)]
pub struct BlockId(pub u32);

/// Index of a type in a module's [`TypeTable`].
#[derive(Debug, Copy, Clone, PartialEq, Eq, Hash, Structural)]
pub struct TypeId(pub usize);

/// Index of an effect in a module's [`EffectTable`].
#[derive(Debug, Copy, Clone, PartialEq, Eq, Hash, Structural)]
pub struct EffectId(pub usize);

impl ValueId {
    pub open spec fn id(self) -> u32 {
        self.0
    }

    pub fn index(self) -> (r: u32)
        ensures
            r == self.id(),
    {
        self.0
    }

    pub fn from_index(index: u32) -> (r: ValueId)
        ensures
            r.id() == index,
    {
        ValueId(index)
    }
}

impl BlockId {
    pub open spec fn id(self) -> u32 {
        self.0
    }

    pub fn index(self) -> (r: u32)
        ensures
            r == self.id(),
    {
        self.0
    }

    pub fn from_index(index: u32) -> (r: BlockId)
        ensures
            r.id() == index,
    {
        BlockId(index)
    }
}

impl TypeId {
    pub open spec fn id(self) -> usize {
        self.0
    }

    pub fn index(self) -> (r: usize)
        ensures
            r == self.id(),
    {
        self.0
    }
}

impl EffectId {
    pub open spec fn id(self) -> usize {
        self.0
    }

    pub fn index(self) -> (r: usize)
        ensures
            r == self.id(),
    {
        self.0
    }
}

#[derive(Debug, PartialEq, Eq, Hash)]
pub struct RecordField {
    pub name: String,
    pub ty: TypeId,
    pub offset: u32,
}

#[derive(Debug, PartialEq, Eq, Hash)]
pub struct RecordType {
    pub name: Option<String>,
    pub fields: Vec<RecordField>,
    pub size: u32,
    pub align: u32,
}

#[derive(Debug, PartialEq, Eq, Hash)]
pub enum Type {
    Unit,
    Int,
    Float,
    Bool,
    String,
    Named(String),
    Record(RecordType),
    Unknown,
}

/// A record field with its name as a character sequence.
pub struct SpecField {
    pub name: Seq<char>,
    pub ty: TypeId,
    pub offset: u32,
}

/// A record type with its names as character sequences.
pub struct SpecRecord {
    pub name: Option<Seq<char>>,
    pub fields: Seq<SpecField>,
    pub size: u32,
    pub align: u32,
}

/// A type with its names as character sequences.
pub enum SpecType {
    Unit,
    Int,
    Float,
    Bool,
    String,
    Named(Seq<char>),
    Record(SpecRecord),
    Unknown,
}

impl View for RecordField {
    type V = SpecField;

    open spec fn view(&self) -> SpecField {
        SpecField { name: self.name@, ty: self.ty, offset: self.offset }
    }
}

pub open spec fn opt_view(o: Option<String>) -> Option<Seq<char>> {
    match o {
        Some(s) => Some(s@),
        None => None,
    }
}

impl View for RecordType {
    type V = SpecRecord;

    open spec fn view(&self) -> SpecRecord {
        SpecRecord {
            name: opt_view(self.name),
            fields: self.fields@.map_values(|f: RecordField| f@),
            size: self.size,
            align: self.align,
        }
    }
}

impl View for Type {
    type V = SpecType;

    open spec fn view(&self) -> SpecType {
        match self {
            Type::Unit => SpecType::Unit,
            Type::Int => SpecType::Int,
            Type::Float => SpecType::Float,
            Type::Bool => SpecType::Bool,
            Type::String => SpecType::String,
            Type::Named(n) => SpecType::Named(n@),
            Type::Record(r) => SpecType::Record(r@),
            Type::Unknown => SpecType::Unknown,
        }
    }
}

/// The first field of `fields` called `name`.
pub open spec fn first_field_index(fields: Seq<SpecField>, name: Seq<char>) -> Option<int>
    decreases fields.len(),
{
    if fields.len() == 0 {
        None
    } else {
        match first_field_index(fields.drop_last(), name) {
            Some(i) => Some(i),
            None => if fields.last().name == name {
                Some(fields.len() - 1)
            } else {
                None
            },
        }
    }
}

pub proof fn lemma_first_field_index(fields: Seq<SpecField>, name: Seq<char>)
    ensures
        first_field_index(fields, name) matches Some(i) ==> 0 <= i < fields.len()
            && fields[i].name == name && forall|k: int| 0 <= k < i ==> fields[k].name != name,
        first_field_index(fields, name) is None ==> forall|k: int|
            0 <= k < fields.len() ==> fields[k].name != name,
    decreases fields.len(),
{
    if fields.len() > 0 {
        let d = fields.drop_last();
        lemma_first_field_index(d, name);
        assert(forall|k: int| 0 <= k < d.len() ==> d[k] == fields[k]);
    }
}

impl RecordType {
    /// The first field called `name`, if any.
    pub fn field(&self, name: &str) -> (r: Option<&RecordField>)
        ensures
            r matches Some(f) ==> first_field_index(self@.fields, name@) matches Some(i) && f@
                == self@.fields[i],
            r is None ==> first_field_index(self@.fields, name@) is None,
    {
        proof {
            lemma_first_field_index(self@.fields, name@);
        }
        let mut i: usize = 0;
        while i < self.fields.len()
            invariant
                i <= self.fields.len(),
                forall|k: int| 0 <= k < i ==> self@.fields[k].name != name@,
            decreases self.fields.len() - i,
        {
            assert(self@.fields[i as int] == self.fields@[i as int]@);
            if string_eq_str(&self.fields[i].name, name) {
                proof {
                    lemma_first_field_index(self@.fields, name@);
                    assert(self@.fields[i as int].name == name@);
                }
                return Some(&self.fields[i]);
            }
            i = i + 1;
        }
        None
    }
}

// ---------------------------------------------------------------------------
// Equality of types
// ---------------------------------------------------------------------------

fn opt_string_eq(a: &Option<String>, b: &Option<String>) -> (r: bool)
    ensures
        r == (opt_view(*a) == opt_view(*b)),
{
    match (a, b) {
        (Some(x), Some(y)) => *x == *y,
        (None, None) => true,
        _ => false,
    }
}

fn record_eq(a: &RecordType, b: &RecordType) -> (r: bool)
    ensures
        r == (a@ == b@),
{
    if !opt_string_eq(&a.name, &b.name) || a.size != b.size || a.align != b.align
        || a.fields.len() != b.fields.len() {
        assert(a@.fields.len() == a.fields.len());
        return false;
    }
    let mut i: usize = 0;
    while i < a.fields.len()
        invariant
            i <= a.fields.len() == b.fields.len(),
            forall|k: int| 0 <= k < i ==> a@.fields[k] == b@.fields[k],
        decreases a.fields.len() - i,
    {
        let fa = &a.fields[i];
        let fb = &b.fields[i];
        if !(fa.name == fb.name) || fa.ty != fb.ty || fa.offset != fb.offset {
            assert(a@.fields[i as int] != b@.fields[i as int]);
            return false;
        }
        i = i + 1;
    }
    assert(a@.fields =~= b@.fields);
    true
}

/// Whether two types are the same.
pub fn type_eq(a: &Type, b: &Type) -> (r: bool)
    ensures
        r == (a@ == b@),
{
    match (a, b) {
        (Type::Unit, Type::Unit) => true,
        (Type::Int, Type::Int) => true,
        (Type::Float, Type::Float) => true,
        (Type::Bool, Type::Bool) => true,
        (Type::String, Type::String) => true,
        (Type::Unknown, Type::Unknown) => true,
        (Type::Named(x), Type::Named(y)) => *x == *y,
        (Type::Record(x), Type::Record(y)) => record_eq(x, y),
        _ => false,
    }
}

fn copy_opt_string(a: &Option<String>) -> (r: Option<String>)
    ensures
        opt_view(r) == opt_view(*a),
{
    match a {
        Some(s) => Some(copy_string(s)),
        None => None,
    }
}

/// A copy of a type.
pub fn copy_type(t: &Type) -> (r: Type)
    ensures
        r@ == t@,
{
    match t {
        Type::Unit => Type::Unit,
        Type::Int => Type::Int,
        Type::Float => Type::Float,
        Type::Bool => Type::Bool,
        Type::String => Type::String,
        Type::Unknown => Type::Unknown,
        Type::Named(n) => Type::Named(copy_string(n)),
        Type::Record(rec) => {
            let mut fields: Vec<RecordField> = Vec::new();
            let mut i: usize = 0;
            while i < rec.fields.len()
                invariant
                    i <= rec.fields.len(),
                    fields@.map_values(|f: RecordField| f@) =~= rec@.fields.subrange(0, i as int),
                decreases rec.fields.len() - i,
            {
                let f = &rec.fields[i];
                let ghost before = fields@;
                fields.push(RecordField { name: copy_string(&f.name), ty: f.ty, offset: f.offset });
                proof {
                    assert(fields@ =~= before.push(fields@.last()));
                    assert(fields@.map_values(|f: RecordField| f@) =~= before.map_values(
                        |f: RecordField| f@,
                    ).push(rec@.fields[i as int]));
                    assert(rec@.fields.subrange(0, i + 1) =~= rec@.fields.subrange(0, i as int).push(
                        rec@.fields[i as int],
                    ));
                }
                i = i + 1;
            }
            assert(rec@.fields.subrange(0, rec.fields.len() as int) =~= rec@.fields);
            Type::Record(
                RecordType {
                    name: copy_opt_string(&rec.name),
                    fields,
                    size: rec.size,
                    align: rec.align,
                },
            )
        },
    }
}

// ---------------------------------------------------------------------------
// Type table
// ---------------------------------------------------------------------------

/// The interned types of a module, the names they are known by, and the
/// id of the unknown type.
#[derive(Debug)]
pub struct TypeTable {
    entries: Vec<Type>,
    named: Vec<(String, TypeId)>,
    unknown: TypeId,
}

/// What a type table holds.
pub struct TableView {
    pub entries: Seq<SpecType>,
    pub named: Seq<(Seq<char>, TypeId)>,
    pub unknown: TypeId,
}

/// The id a name was last bound to in `named`.
pub open spec fn lookup_in(named: Seq<(Seq<char>, TypeId)>, name: Seq<char>) -> Option<TypeId>
    decreases named.len(),
{
    if named.len() == 0 {
        None
    } else if named.last().0 == name {
        Some(named.last().1)
    } else {
        lookup_in(named.drop_last(), name)
    }
}

/// The index of the entry equal to `ty`, if any.
pub open spec fn find_type(entries: Seq<SpecType>, ty: SpecType) -> Option<int> {
    if exists|i: int| 0 <= i < entries.len() && entries[i] == ty {
        Some(choose|i: int| 0 <= i < entries.len() && entries[i] == ty)
    } else {
        None
    }
}

/// The name a new entry is registered under: a named type's name, or a
/// named record's name.
pub open spec fn registered_name(ty: SpecType) -> Option<Seq<char>> {
    match ty {
        SpecType::Named(n) => Some(n),
        SpecType::Record(r) => r.name,
        _ => None,
    }
}

/// The table after interning `ty`, and the id of `ty` in it.
pub open spec fn intern_spec(t: TableView, ty: SpecType) -> (TableView, TypeId) {
    match find_type(t.entries, ty) {
        Some(i) => (t, TypeId(i as usize)),
        None => {
            let id = TypeId(t.entries.len() as usize);
            let named = match registered_name(ty) {
                Some(n) => t.named.push((n, id)),
                None => t.named,
            };
            (TableView { entries: t.entries.push(ty), named, unknown: t.unknown }, id)
        },
    }
}

/// Size in bytes of a value of type `ty`.
pub open spec fn size_spec(ty: SpecType) -> u32 {
    match ty {
        SpecType::Unit => 0,
        SpecType::Bool => 1,
        SpecType::Record(r) => r.size,
        _ => 8,
    }
}

/// Alignment in bytes of a value of type `ty`.
pub open spec fn align_spec(ty: SpecType) -> u32 {
    match ty {
        SpecType::Unit => 1,
        SpecType::Bool => 1,
        SpecType::Record(r) => r.align,
        _ => 8,
    }
}

/// `value` rounded up to a multiple of `align` (unchanged for `align <= 1`).
pub open spec fn align_up(value: int, align: int) -> int {
    if align <= 1 {
        value
    } else {
        ((value + align - 1) / align) * align
    }
}

/// The builtin type a name stands for, or a named type.
pub open spec fn builtin_spec(name: Seq<char>) -> SpecType {
    if name == "Unit"@ {
        SpecType::Unit
    } else if name == "Int"@ {
        SpecType::Int
    } else if name == "Float"@ {
        SpecType::Float
    } else if name == "Bool"@ {
        SpecType::Bool
    } else if name == "String"@ {
        SpecType::String
    } else {
        SpecType::Named(name)
    }
}

impl View for TypeTable {
    type V = TableView;

    closed spec fn view(&self) -> TableView {
        TableView {
            entries: self.entries@.map_values(|t: Type| t@),
            named: self.named@.map_values(|p: (String, TypeId)| (p.0@, p.1)),
            unknown: self.unknown,
        }
    }
}

/// Well-formedness of a type table: the unknown type is present, entries are
/// distinct, every bound name and every record field refers to an earlier
/// entry.
pub open spec fn table_wf(t: TableView) -> bool {
    &&& t.unknown.0 < t.entries.len()
    &&& t.entries[t.unknown.0 as int] == SpecType::Unknown
    &&& forall|i: int, j: int| 0 <= i < j < t.entries.len() ==> t.entries[i] != t.entries[j]
    &&& forall|k: int| 0 <= k < t.named.len() ==> (#[trigger] t.named[k]).1.0 < t.entries.len()
    &&& forall|i: int|
        0 <= i < t.entries.len() ==> (#[trigger] t.entries[i] matches SpecType::Record(r) ==> forall|
            f: int,
        | 0 <= f < r.fields.len() ==> r.fields[f].ty.0 < i)
}

impl TypeTable {
    pub open spec fn spec_len(&self) -> nat {
        self@.entries.len()
    }

    pub open spec fn spec_get(&self, id: TypeId) -> SpecType {
        self@.entries[id.0 as int]
    }

    pub open spec fn valid_id(&self, id: TypeId) -> bool {
        id.0 < self@.entries.len()
    }

    pub open spec fn wf(&self) -> bool {
        table_wf(self@)
    }

    fn insert_raw(&mut self, ty: Type) -> (id: TypeId)
        requires
            old(self).wf(),
            find_type(old(self)@.entries, ty@) is None,
            ty@ matches SpecType::Record(r) ==> forall|f: int|
                0 <= f < r.fields.len() ==> r.fields[f].ty.0 < old(self)@.entries.len(),
            ty@ != SpecType::Unknown,
        ensures
            final(self).wf(),
            (final(self)@, id) == intern_spec(old(self)@, ty@),
    {
        let ghost old_t = self@;
        let id = TypeId(self.entries.len());
        match &ty {
            Type::Named(name) => {
                self.named.push((copy_string(name), id));
            },
            Type::Record(record) => {
                match &record.name {
                    Some(name) => {
                        self.named.push((copy_string(name), id));
                    },
                    None => {},
                }
            },
            _ => {},
        }
        self.entries.push(ty);
        proof {
            let t2 = self@;
            let (t3, id3) = intern_spec(old_t, ty@);
            assert(t2.entries =~= old_t.entries.push(ty@));
            assert(t2.entries =~= t3.entries);
            assert(t2.named =~= t3.named);
            assert forall|i: int, j: int|
                0 <= i < j < t2.entries.len() implies t2.entries[i] != t2.entries[j] by {
                if j == t2.entries.len() - 1 && t2.entries[i] == t2.entries[j] {
                    assert(old_t.entries[i] == ty@);
                    assert(exists|k: int| 0 <= k < old_t.entries.len() && old_t.entries[k] == ty@);
                }
            }
            assert forall|k: int| 0 <= k < t2.named.len() implies (#[trigger] t2.named[k]).1.0
                < t2.entries.len() by {
                if k < old_t.named.len() {
                    assert(t2.named[k] == old_t.named[k]);
                }
            }
            assert forall|i: int| 0 <= i < t2.entries.len() implies (#[trigger] t2.entries[i] matches SpecType::Record(
                r,
            ) ==> forall|f: int| 0 <= f < r.fields.len() ==> r.fields[f].ty.0 < i) by {
                if i < old_t.entries.len() {
                    assert(t2.entries[i] == old_t.entries[i]);
                }
            }
        }
        id
    }

    /// A table holding the unknown type and the builtin types `Unit`, `Int`,
    /// `Float`, `Bool` and `String`, each bound to its name.
    pub fn new() -> (t: TypeTable)
        ensures
            t.wf(),
            t@.entries =~= seq![
                SpecType::Unknown,
                SpecType::Unit,
                SpecType::Int,
                SpecType::Float,
                SpecType::Bool,
                SpecType::String,
            ],
            t@.unknown == TypeId(0),
            lookup_in(t@.named, "Unit"@) == Some(TypeId(1)),
            lookup_in(t@.named, "Int"@) == Some(TypeId(2)),
            lookup_in(t@.named, "Float"@) == Some(TypeId(3)),
            lookup_in(t@.named, "Bool"@) == Some(TypeId(4)),
            lookup_in(t@.named, "String"@) == Some(TypeId(5)),
            t@.named.len() == 5,
    {
        let mut entries: Vec<Type> = Vec::new();
        entries.push(Type::Unknown);
        entries.push(Type::Unit);
        entries.push(Type::Int);
        entries.push(Type::Float);
        entries.push(Type::Bool);
        entries.push(Type::String);
        let mut named: Vec<(String, TypeId)> = Vec::new();
        named.push((to_owned_string("Unit"), TypeId(1)));
        named.push((to_owned_string("Int"), TypeId(2)));
        named.push((to_owned_string("Float"), TypeId(3)));
        named.push((to_owned_string("Bool"), TypeId(4)));
        named.push((to_owned_string("String"), TypeId(5)));
        let t = TypeTable { entries, named, unknown: TypeId(0) };
        proof {
            reveal_strlit("Unit");
            reveal_strlit("Int");
            reveal_strlit("Float");
            reveal_strlit("Bool");
            reveal_strlit("String");
            let n = t@.named;
            assert(n.len() == 5);
            reveal_with_fuel(lookup_in, 6);
            assert(n[4] == ("String"@, TypeId(5)));
            assert(n.drop_last()[3] == ("Bool"@, TypeId(4)));
            assert(n.drop_last().drop_last()[2] == ("Float"@, TypeId(3)));
            assert(n.drop_last().drop_last().drop_last()[1] == ("Int"@, TypeId(2)));
            assert(n.drop_last().drop_last().drop_last().drop_last()[0] == ("Unit"@, TypeId(1)));
            assert("Unit"@.len() == 4 && "Int"@.len() == 3 && "Float"@.len() == 5);
            assert("Bool"@.len() == 4 && "String"@.len() == 6);
            assert("Unit"@[0] == 'U' && "Bool"@[0] == 'B' && "Float"@[0] == 'F');
        }
        t
    }

    /// The id of the entry equal to `ty`.
    fn find(&self, ty: &Type) -> (r: Option<TypeId>)
        requires
            self.wf(),
        ensures
            r matches Some(id) ==> find_type(self@.entries, ty@) == Some(
                id.0 as int,
            ),
            r is None ==> find_type(self@.entries, ty@) is None,
    {
        let ghost es = self@.entries;
        let mut i: usize = 0;
        while i < self.entries.len()
            invariant
                i <= self.entries.len(),
                es == self@.entries,
                self.wf(),
                forall|k: int| 0 <= k < i ==> es[k] != ty@,
            decreases self.entries.len() - i,
        {
            assert(es[i as int] == self.entries@[i as int]@);
            if type_eq(&self.entries[i], ty) {
                proof {
                    let c = choose|j: int| 0 <= j < es.len() && es[j] == ty@;
                    assert(c == i);
                }
                return Some(TypeId(i));
            }
            i = i + 1;
        }
        None
    }

    /// Interns `ty`: the id of the equal entry, or of a new entry (a named
    /// type or a named record also binds its name).
    pub fn intern(&mut self, ty: Type) -> (id: TypeId)
        requires
            old(self).wf(),
            ty@ matches SpecType::Record(r) ==> forall|f: int|
                0 <= f < r.fields.len() ==> r.fields[f].ty.0 < old(self)@.entries.len(),
        ensures
            final(self).wf(),
            (final(self)@, id) == intern_spec(old(self)@, ty@),
    {
        match self.find(&ty) {
            Some(id) => id,
            None => {
                proof {
                    assert(self.entries@[self.unknown.0 as int]@ == SpecType::Unknown);
                }
                self.insert_raw(ty)
            },
        }
    }

    /// Binds `name` to `ty`, replacing an earlier binding.
    pub fn define_alias(&mut self, name: &str, ty: TypeId)
        requires
            old(self).wf(),
            old(self).valid_id(ty),
        ensures
            final(self).wf(),
            final(self)@.entries == old(self)@.entries,
            final(self)@.unknown == old(self)@.unknown,
            final(self)@.named == old(self)@.named.push((name@, ty)),
    {
        self.named.push((to_owned_string(name), ty));
        assert(self@.named =~= old(self)@.named.push((name@, ty)));
    }

    /// The type with id `id`.
    pub fn get(&self, id: TypeId) -> (t: &Type)
        requires
            self.valid_id(id),
        ensures
            t@ == self.spec_get(id),
    {
        &self.entries[id.0]
    }

    /// All entries, indexed by type id.
    pub fn entries(&self) -> (es: &Vec<Type>)
        ensures
            es@.map_values(|t: Type| t@) == self@.entries,
    {
        &self.entries
    }

    /// Number of entries.
    pub fn len(&self) -> (n: usize)
        ensures
            n == self.spec_len(),
    {
        self.entries.len()
    }

    /// The id `name` was last bound to.
    pub fn lookup_named(&self, name: &str) -> (r: Option<TypeId>)
        ensures
            r == lookup_in(self@.named, name@),
    {
        let ghost ns = self@.named;
        let mut i = self.named.len();
        assert(ns.subrange(0, i as int) =~= ns);
        while i > 0
            invariant
                i <= self.named.len(),
                ns == self@.named,
                lookup_in(ns, name@) == lookup_in(ns.subrange(0, i as int), name@),
            decreases i,
        {
            let ghost sub = ns.subrange(0, i as int);
            assert(sub.drop_last() =~= ns.subrange(0, i - 1));
            assert(sub.last() == (self.named@[i - 1].0@, self.named@[i - 1].1));
            if string_eq_str(&self.named[i - 1].0, name) {
                return Some(self.named[i - 1].1);
            }
            i = i - 1;
        }
        None
    }

    /// The id of the unknown type.
    pub fn unknown(&self) -> (id: TypeId)
        ensures
            id == self@.unknown,
    {
        self.unknown
    }

    /// Size in bytes of a value of type `ty`.
    pub fn size_of(&self, ty: TypeId) -> (n: u32)
        requires
            self.valid_id(ty),
        ensures
            n == size_spec(self.spec_get(ty)),
    {
        match self.get(ty) {
            Type::Unit => 0,
            Type::Bool => 1,
            Type::Record(record) => record.size,
            _ => 8,
        }
    }

    /// Alignment in bytes of a value of type `ty`.
    pub fn align_of(&self, ty: TypeId) -> (n: u32)
        requires
            self.valid_id(ty),
        ensures
            n == align_spec(self.spec_get(ty)),
    {
        match self.get(ty) {
            Type::Unit => 1,
            Type::Bool => 1,
            Type::Record(record) => record.align,
            _ => 8,
        }
    }
}

/// `value` rounded up to a multiple of `align`; saturates at `u32::MAX`.
pub fn align_to(value: u32, align: u32) -> (r: u32)
    ensures
        align_up(value as int, align as int) <= u32::MAX ==> r == align_up(
            value as int,
            align as int,
        ),
        align_up(value as int, align as int) > u32::MAX ==> r == u32::MAX,
{
    if align <= 1 {
        value
    } else {
        let bumped: u64 = value as u64 + align as u64 - 1;
        let q: u64 = bumped / align as u64;
        assert(q * (align as u64) <= bumped) by (nonlinear_arith)
            requires
                q == bumped / (align as u64),
                align > 1,
        ;
        let r: u64 = q * align as u64;
        if r > u32::MAX as u64 {
            u32::MAX
        } else {
            r as u32
        }
    }
}

// ---------------------------------------------------------------------------
// Effect table
// ---------------------------------------------------------------------------

/// The interned effect names of a module.
#[derive(Debug)]
pub struct EffectTable {
    entries: Vec<String>,
}

impl View for EffectTable {
    type V = Seq<Seq<char>>;

    closed spec fn view(&self) -> Seq<Seq<char>> {
        self.entries@.map_values(|s: String| s@)
    }
}

impl EffectTable {
    pub open spec fn names(&self) -> Seq<Seq<char>> {
        self@
    }

    pub open spec fn valid_id(&self, id: EffectId) -> bool {
        id.0 < self@.len()
    }

    /// Effect names are distinct.
    pub open spec fn wf(&self) -> bool {
        forall|i: int, j: int| 0 <= i < j < self@.len() ==> self@[i] != self@[j]
    }

    /// An empty table.
    pub fn new() -> (t: EffectTable)
        ensures
            t.wf(),
            t.names() == Seq::<Seq<char>>::empty(),
    {
        let t = EffectTable { entries: Vec::new() };
        assert(t.names() =~= Seq::<Seq<char>>::empty());
        t
    }

    /// The id of `name`, adding it when new.
    pub fn intern(&mut self, name: String) -> (id: EffectId)
        requires
            old(self).wf(),
        ensures
            final(self).wf(),
            final(self).valid_id(id),
            final(self).names()[id.0 as int] == name@,
            old(self).names().contains(name@) ==> final(self).names() == old(self).names(),
            !old(self).names().contains(name@) ==> final(self).names() == old(
                self,
            ).names().push(name@),
    {
        let mut i: usize = 0;
        while i < self.entries.len()
            invariant
                i <= self.entries.len(),
                self@ == old(self)@,
                self.wf(),
                forall|k: int| 0 <= k < i ==> self.entries@[k]@ != name@,
            decreases self.entries.len() - i,
        {
            if crate::text::str_eq(self.entries[i].as_str(), name.as_str()) {
                assert(self.names()[i as int] == name@);
                return EffectId(i);
            }
            i = i + 1;
        }
        let id = EffectId(self.entries.len());
        let ghost old_names = self.names();
        proof {
            assert(!old_names.contains(name@)) by {
                if old_names.contains(name@) {
                    let k = choose|k: int| 0 <= k < old_names.len() && old_names[k] == name@;
                    assert(self.entries@[k]@ == name@);
                }
            }
        }
        self.entries.push(name);
        assert(self.names() =~= old_names.push(name@));
        id
    }

    /// The name of effect `id`.
    pub fn name(&self, id: EffectId) -> (n: &str)
        requires
            self.valid_id(id),
        ensures
            n@ == self.names()[id.0 as int],
    {
        self.entries[id.0].as_str()
    }

    /// Number of effects.
    pub fn len(&self) -> (n: usize)
        ensures
            n == self.names().len(),
    {
        self.entries.len()
    }
}

// ---------------------------------------------------------------------------
// Module accessors
// ---------------------------------------------------------------------------

impl Module {
    pub fn effect_name(&self, id: EffectId) -> (n: &str)
        requires
            self.effects.valid_id(id),
        ensures
            n@ == self.effects.names()[id.0 as int],
    {
        self.effects.name(id)
    }

    pub fn type_of(&self, id: TypeId) -> (t: &Type)
        requires
            self.types.valid_id(id),
        ensures
            t@ == self.types.spec_get(id),
    {
        self.types.get(id)
    }

    pub fn unknown_type(&self) -> (id: TypeId)
        ensures
            id == self.types@.unknown,
    {
        self.types.unknown()
    }
}

impl Instruction {
    /// The instruction's type and effects are entries of tables with
    /// `types` and `effects` entries.
    pub open spec fn ids_within(&self, types: nat, effects: nat) -> bool {
        &&& self.ty.0 < types
        &&& forall|e: int| 0 <= e < self.effects@.len() ==> (#[trigger] self.effects@[e]).0 < effects
    }
}

impl Function {
    /// Every type and effect the function mentions is an entry of tables
    /// with `types` and `effects` entries.
    pub open spec fn ids_within(&self, types: nat, effects: nat) -> bool {
        &&& self.ret_type.0 < types
        &&& forall|i: int| 0 <= i < self.params@.len() ==> (#[trigger] self.params@[i]).ty.0 < types
        &&& forall|e: int| 0 <= e < self.effect_row@.len() ==> (#[trigger] self.effect_row@[e]).0 < effects
        &&& forall|b: int, k: int|
            0 <= b < self.blocks@.len() && 0 <= k < self.blocks@[b].instructions@.len() ==> (
            #[trigger] self.blocks@[b].instructions@[k]).ids_within(types, effects)
    }
}

impl Module {
    /// The module's tables are well formed and every id its functions
    /// mention is an entry of them.
    pub open spec fn wf(&self) -> bool {
        &&& self.types.wf()
        &&& self.effects.wf()
        &&& forall|f: int|
            0 <= f < self.functions@.len() ==> (#[trigger] self.functions@[f]).ids_within(
                self.types@.entries.len(),
                self.effects@.len(),
            )
    }
}

impl Type {
    /// The builtin type a name stands for, or a named type.
    pub fn from_builtin_name(name: &str) -> (t: Type)
        ensures
            t@ == builtin_spec(name@),
    {
        if str_is(name, "Unit") {
            Type::Unit
        } else if str_is(name, "Int") {
            Type::Int
        } else if str_is(name, "Float") {
            Type::Float
        } else if str_is(name, "Bool") {
            Type::Bool
        } else if str_is(name, "String") {
            Type::String
        } else {
            Type::Named(to_owned_string(name))
        }
    }
}

fn str_is(a: &str, b: &str) -> (r: bool)
    ensures
        r == (a@ == b@),
{
    crate::text::str_eq(a, b)
}


// ---------------------------------------------------------------------------
// Interning type expressions
// ---------------------------------------------------------------------------

/// `a + b`, or `u32::MAX` when that does not fit.
pub open spec fn sat_add(a: u32, b: u32) -> u32 {
    if a + b > u32::MAX {
        u32::MAX
    } else {
        (a + b) as u32
    }
}

/// [`align_up`] on `u32`, saturating.
pub open spec fn align_u32(v: u32, a: u32) -> u32 {
    if align_up(v as int, a as int) > u32::MAX {
        u32::MAX
    } else {
        align_up(v as int, a as int) as u32
    }
}

/// The larger of two `u32`.
pub open spec fn max_u32(a: u32, b: u32) -> u32 {
    if a < b {
        b
    } else {
        a
    }
}

/// The table after laying out record fields one after another, with the
/// fields (each at the next offset its alignment allows), the end offset
/// and the largest alignment seen.
pub struct Layout {
    pub table: TableView,
    pub fields: Seq<SpecField>,
    pub offset: u32,
    pub align: u32,
}

/// The table after interning a type expression, and the id it stands for:
/// a name bound in the table is that binding, other names the builtin or
/// named type; a record is laid out; the empty tuple is `Unit`; a function
/// type stands for its return type and a list for its element type; other
/// forms are unknown.
pub open spec fn intern_expr_spec(t: TableView, e: TypeExpr) -> (TableView, TypeId)
    decreases e,
{
    match e {
        TypeExpr::Unit => intern_spec(t, SpecType::Unit),
        TypeExpr::Name(n) => match lookup_in(t.named, n@) {
            Some(id) => (t, id),
            None => intern_spec(t, builtin_spec(n@)),
        },
        TypeExpr::Generic(n, _) => match lookup_in(t.named, n@) {
            Some(id) => (t, id),
            None => intern_spec(t, builtin_spec(n@)),
        },
        TypeExpr::Record(fields) => {
            let l = layout_fields(t, fields@);
            let align = max_u32(l.align, 1);
            intern_spec(
                l.table,
                SpecType::Record(SpecRecord { name: None, fields: l.fields, size: align_u32(l.offset, align), align }),
            )
        },
        TypeExpr::Tuple(items) => if items@.len() == 0 {
            intern_spec(t, SpecType::Unit)
        } else {
            intern_spec(t, SpecType::Unknown)
        },
        TypeExpr::Function { return_type, .. } => intern_expr_spec(t, *return_type),
        TypeExpr::List(inner) => intern_expr_spec(t, *inner),
        _ => intern_spec(t, SpecType::Unknown),
    }
}

/// Laying out `fields` in order, interning each field's type.
pub open spec fn layout_fields(t: TableView, fields: Seq<(String, TypeExpr)>) -> Layout
    decreases fields,
{
    if fields.len() == 0 {
        Layout { table: t, fields: Seq::empty(), offset: 0, align: 1 }
    } else {
        let l = layout_fields(t, fields.drop_last());
        let (t2, id) = intern_expr_spec(l.table, fields.last().1);
        let fa = align_spec(t2.entries[id.0 as int]);
        let fs = size_spec(t2.entries[id.0 as int]);
        let off = align_u32(l.offset, fa);
        Layout {
            table: t2,
            fields: l.fields.push(SpecField { name: fields.last().0@, ty: id, offset: off }),
            offset: sat_add(off, fs),
            align: max_u32(l.align, fa),
        }
    }
}

/// The table after interning a record called `name` (if any) with the
/// fields `fields`: its size is the end offset rounded up to its alignment,
/// at least 1.
pub open spec fn intern_record_spec(t: TableView, name: Option<Seq<char>>, fields: Seq<(String, TypeExpr)>) -> (TableView, TypeId) {
    let l = layout_fields(t, fields);
    let align = max_u32(l.align, 1);
    intern_spec(l.table, SpecType::Record(SpecRecord { name, fields: l.fields, size: align_u32(l.offset, align), align }))
}

/// The type of a literal.
pub open spec fn literal_type(l: Literal) -> SpecType {
    match l {
        Literal::Unit => SpecType::Unit,
        Literal::Int(_) => SpecType::Int,
        Literal::Float(_) => SpecType::Float,
        Literal::Bool(_) => SpecType::Bool,
        Literal::String(_) => SpecType::String,
    }
}

impl Type {
    /// The type of a literal.
    pub fn from_literal(literal: &Literal) -> (t: Type)
        ensures
            t@ == literal_type(*literal),
    {
        match literal {
            Literal::Unit => Type::Unit,
            Literal::Int(_) => Type::Int,
            Literal::Float(_) => Type::Float,
            Literal::Bool(_) => Type::Bool,
            Literal::String(_) => Type::String,
        }
    }
}

fn sat_add_u32(a: u32, b: u32) -> (r: u32)
    ensures
        r == sat_add(a, b),
{
    a.saturating_add(b)
}

impl TypeTable {
    /// Interns the type a type expression stands for.
    pub fn intern_type_expr(&mut self, expr: &TypeExpr) -> (id: TypeId)
        requires
            old(self).wf(),
        ensures
            final(self).wf(),
            (final(self)@, id) == intern_expr_spec(old(self)@, *expr),
            final(self).valid_id(id),
            old(self)@.entries.len() <= final(self)@.entries.len(),
        decreases expr,
    {
        match expr {
            TypeExpr::Unit => self.intern(Type::Unit),
            TypeExpr::Name(name) => match self.lookup_named(name.as_str()) {
                Some(id) => {
                    proof {
                        self.lemma_lookup_valid(name@);
                    }
                    id
                },
                None => self.intern(Type::from_builtin_name(name.as_str())),
            },
            TypeExpr::Generic(name, _) => match self.lookup_named(name.as_str()) {
                Some(id) => {
                    proof {
                        self.lemma_lookup_valid(name@);
                    }
                    id
                },
                None => self.intern(Type::from_builtin_name(name.as_str())),
            },
            TypeExpr::Record(fields) => self.intern_fields(None, fields),
            TypeExpr::Tuple(items) => {
                if items.len() == 0 {
                    self.intern(Type::Unit)
                } else {
                    self.intern(Type::Unknown)
                }
            },
            TypeExpr::Function { return_type, .. } => self.intern_type_expr(return_type),
            TypeExpr::List(inner) => self.intern_type_expr(inner),
            _ => self.intern(Type::Unknown),
        }
    }

    proof fn lemma_lookup_valid(&self, name: Seq<char>)
        requires
            self.wf(),
        ensures
            lookup_in(self@.named, name) matches Some(id) ==> self.valid_id(id),
    {
        lemma_lookup_in_valid(self@, self@.named, name);
    }

    fn intern_fields(&mut self, name: Option<&str>, fields: &Vec<(String, TypeExpr)>) -> (id: TypeId)
        requires
            old(self).wf(),
        ensures
            final(self).wf(),
            (final(self)@, id) == intern_record_spec(old(self)@, match name { Some(n) => Some(n@), None => None }, fields@),
            final(self).valid_id(id),
            old(self)@.entries.len() <= final(self)@.entries.len(),
        decreases fields, 0nat,
    {
        let ghost t0 = self@;
        let mut layout: Vec<RecordField> = Vec::new();
        let mut offset: u32 = 0;
        let mut align: u32 = 1;
        let mut i: usize = 0;
        while i < fields.len()
            invariant
                i <= fields.len(),
                self.wf(),
                t0.entries.len() <= self@.entries.len(),
                ({
                    let l = layout_fields(t0, fields@.take(i as int));
                    &&& l.table == self@
                    &&& l.fields == layout@.map_values(|f: RecordField| f@)
                    &&& l.offset == offset
                    &&& l.align == align
                }),
                forall|f: int| 0 <= f < layout@.len() ==> (#[trigger] layout@[f]).ty.0 < self@.entries.len(),
            decreases fields.len() - i,
        {
            proof {
                assert(fields@.take(i + 1).drop_last() =~= fields@.take(i as int));
                assert(fields@.take(i + 1).last() == fields@[i as int]);
                assert(decreases_to!(fields => fields@));
                assert(decreases_to!(fields@ => fields@[i as int]));
            }
            let ghost len0 = self@.entries.len();
            let field_ty = self.intern_type_expr(&fields[i].1);
            let field_align = self.align_of(field_ty);
            let field_size = self.size_of(field_ty);
            offset = align_to(offset, field_align);
            layout.push(RecordField { name: crate::text::copy_string(&fields[i].0), ty: field_ty, offset });
            offset = sat_add_u32(offset, field_size);
            align = if align < field_align { field_align } else { align };
            proof {
                assert(layout@.map_values(|f: RecordField| f@) =~= layout_fields(t0, fields@.take(i as int)).fields.push(
                    SpecField { name: fields@[i as int].0@, ty: field_ty, offset: layout@.last().offset },
                ));
            }
            i = i + 1;
        }
        assert(fields@.take(fields.len() as int) =~= fields@);
        if align < 1 {
            align = 1;
        }
        let size = align_to(offset, align);
        let record = RecordType {
            name: match name {
                Some(n) => Some(crate::text::to_owned_string(n)),
                None => None,
            },
            fields: layout,
            size,
            align,
        };
        self.intern(Type::Record(record))
    }

    /// Interns a record called `name` (if any) with the fields `fields`,
    /// laid out in order.
    pub fn intern_record(&mut self, name: Option<&str>, fields: &Vec<(String, TypeExpr)>) -> (id: TypeId)
        requires
            old(self).wf(),
        ensures
            final(self).wf(),
            (final(self)@, id) == intern_record_spec(old(self)@, match name { Some(n) => Some(n@), None => None }, fields@),
            final(self).valid_id(id),
            old(self)@.entries.len() <= final(self)@.entries.len(),
    {
        self.intern_fields(name, fields)
    }
}

proof fn lemma_lookup_in_valid(t: TableView, named: Seq<(Seq<char>, TypeId)>, name: Seq<char>)
    requires
        forall|k: int| 0 <= k < named.len() ==> (#[trigger] named[k]).1.0 < t.entries.len(),
    ensures
        lookup_in(named, name) matches Some(id) ==> id.0 < t.entries.len(),
    decreases named.len(),
{
    if named.len() > 0 {
        assert(named[named.len() - 1] == named.last());
        lemma_lookup_in_valid(t, named.drop_last(), name);
    }
}

} // verus!
