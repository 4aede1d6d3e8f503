//! Symbol tables: a class-level table for `static`/`field` declarations
//! and a per-subroutine local table for parameters, locals, and the
//! implicit receiver.
//!
//! Each table is an ordered list of entries; a name that is declared
//! twice is resolved to its latest entry.  Combined resolution looks in
//! the local table first (shadowing), then in the class table, and hides
//! `field` entries when the table was built for a `function`, where no
//! receiver exists.

use vstd::prelude::*;

use crate::ast::ClassVarDeclV;
use crate::ast::ClassVarDeclaration;
use crate::ast::Type;
use crate::ast::TypeV;
use crate::ast::VarDeclV;
use crate::ast::VarDeclaration;
use crate::ast::view_class_var;
use crate::ast::view_type;
use crate::ast::view_var_decl;
use crate::ast::view_var_decls;
use crate::text::str_eq;

verus! {

/// What kind of storage a symbol lives in, with its declared type.
#[derive(PartialEq, Eq, Debug)]
pub enum VarKind {
    Static(Type),
    Field(Type),
    Arg(Type),
    Var(Type),
}

/// Mathematical twin of `VarKind`.
pub enum VarKindV {
    Static(TypeV),
    Field(TypeV),
    Arg(TypeV),
    Var(TypeV),
}

pub open spec fn view_var_kind(k: VarKind) -> VarKindV {
    match k {
        VarKind::Static(t) => VarKindV::Static(view_type(t)),
        VarKind::Field(t) => VarKindV::Field(view_type(t)),
        VarKind::Arg(t) => VarKindV::Arg(view_type(t)),
        VarKind::Var(t) => VarKindV::Var(view_type(t)),
    }
}

/// One symbol-table entry: a name bound to a kind and a zero-based slot
/// index within that kind's segment.
#[derive(PartialEq, Eq, Debug)]
pub struct SymEntry {
    pub name: String,
    pub kind: VarKind,
    pub index: usize,
}

#[verifier::ext_equal]
pub struct SymEntryV {
    pub name: Seq<char>,
    pub kind: VarKindV,
    pub index: int,
}

pub open spec fn view_entry(e: SymEntry) -> SymEntryV {
    SymEntryV { name: e.name@, kind: view_var_kind(e.kind), index: e.index as int }
}

pub open spec fn view_entries(es: Seq<SymEntry>) -> Seq<SymEntryV> {
    es.map(|i: int, e: SymEntry| view_entry(e))
}

/// Viewing a vector of entries commutes with appending one entry.
pub proof fn lemma_view_entries_push(pre: Seq<SymEntry>, e: SymEntry)
    ensures
        view_entries(pre.push(e)) == view_entries(pre).push(view_entry(e)),
{
    assert(view_entries(pre.push(e)) =~= view_entries(pre).push(view_entry(e)));
}

/// Appending to the second part of a concatenation appends to the whole.
pub proof fn lemma_concat_push<T>(a: Seq<T>, b: Seq<T>, x: T)
    ensures
        a + b.push(x) == (a + b).push(x),
{
    assert(a + b.push(x) =~= (a + b).push(x));
}

/// Resolution within one entry list: the latest entry with the given
/// name wins.
pub open spec fn lookup(es: Seq<SymEntryV>, name: Seq<char>) -> Option<SymEntryV>
    decreases es.len(),
{
    if es.len() == 0 {
        None
    } else if es.last().name == name {
        Some(es.last())
    } else {
        lookup(es.drop_last(), name)
    }
}

/// Scan a vector of entries, latest first, for the given name.
fn lookup_entries<'e>(entries: &'e Vec<SymEntry>, name: &str) -> (r: Option<&'e SymEntry>)
    ensures
        match r {
            Some(e) => lookup(view_entries(entries@), name@) == Some(view_entry(*e)),
            None => lookup(view_entries(entries@), name@) is None,
        },
{
    let ghost lv = view_entries(entries@);
    let mut i: usize = entries.len();
    proof {
        assert(lv.take(entries@.len() as int) =~= lv);
    }
    while i > 0
        invariant
            i <= entries@.len(),
            lv == view_entries(entries@),
            lv.len() == entries@.len(),
            lookup(lv.take(i as int), name@) == lookup(lv, name@),
        decreases i,
    {
        let e = &entries[i - 1];
        proof {
            assert(lv.take(i as int).drop_last() =~= lv.take(i - 1));
            assert(lv.take(i as int).last() == view_entry(entries@[i - 1]));
        }
        if str_eq(e.name.as_str(), name) {
            return Some(e);
        }
        i = i - 1;
    }
    proof {
        assert(lv.take(0) =~= Seq::<SymEntryV>::empty());
    }
    None
}

/// Number of `static` declarations in a class-variable list.
pub open spec fn count_statics(vars: Seq<ClassVarDeclV>) -> int
    decreases vars.len(),
{
    if vars.len() == 0 {
        0
    } else {
        count_statics(vars.drop_last()) + if vars.last() is Static {
            1int
        } else {
            0int
        }
    }
}

/// Number of `field` declarations in a class-variable list; this is also
/// the number of heap words a constructor allocates for the object.
pub open spec fn count_fields(vars: Seq<ClassVarDeclV>) -> int
    decreases vars.len(),
{
    if vars.len() == 0 {
        0
    } else {
        count_fields(vars.drop_last()) + if vars.last() is Field {
            1int
        } else {
            0int
        }
    }
}

/// The class table built from a class-variable list: one entry per
/// declaration, in order, with per-kind indices counted independently.
pub open spec fn spec_class_entries(vars: Seq<ClassVarDeclV>) -> Seq<SymEntryV>
    decreases vars.len(),
{
    if vars.len() == 0 {
        Seq::empty()
    } else {
        let front = vars.drop_last();
        let prev = spec_class_entries(front);
        match vars.last() {
            ClassVarDeclV::Static(d) => prev.push(
                SymEntryV {
                    name: d.var_name,
                    kind: VarKindV::Static(d.var_type),
                    index: count_statics(front),
                },
            ),
            ClassVarDeclV::Field(d) => prev.push(
                SymEntryV {
                    name: d.var_name,
                    kind: VarKindV::Field(d.var_type),
                    index: count_fields(front),
                },
            ),
        }
    }
}

/// The class-level symbol table.
pub struct ClassSymbolTable {
    pub entries: Vec<SymEntry>,
}

impl View for ClassSymbolTable {
    type V = Seq<SymEntryV>;

    open spec fn view(&self) -> Seq<SymEntryV> {
        view_entries(self.entries@)
    }
}

/// Number of `field` entries in a symbol-entry list.
pub open spec fn entry_field_count(es: Seq<SymEntryV>) -> int
    decreases es.len(),
{
    if es.len() == 0 {
        0
    } else {
        entry_field_count(es.drop_last()) + if es.last().kind is Field {
            1int
        } else {
            0int
        }
    }
}

impl ClassSymbolTable {
    /// Build the class table: partition declarations by `static`/`field`
    /// and assign sequential per-kind indices in declaration order.
    pub fn new(vars: &Vec<ClassVarDeclaration>) -> (r: ClassSymbolTable)
        ensures
            r@ == spec_class_entries(vars@.map(|i: int, d: ClassVarDeclaration| view_class_var(d))),
    {
        let ghost dv = vars@.map(|i: int, d: ClassVarDeclaration| view_class_var(d));
        let mut entries: Vec<SymEntry> = Vec::new();
        let mut static_count: usize = 0;
        let mut field_count: usize = 0;
        let mut i: usize = 0;
        while i < vars.len()
            invariant
                i <= vars@.len(),
                dv == vars@.map(|k: int, d: ClassVarDeclaration| view_class_var(d)),
                dv.len() == vars@.len(),
                static_count == count_statics(dv.take(i as int)),
                field_count == count_fields(dv.take(i as int)),
                static_count + field_count == i,
                view_entries(entries@) == spec_class_entries(dv.take(i as int)),
            decreases vars@.len() - i,
        {
            proof {
                assert(dv.take(i + 1).drop_last() =~= dv.take(i as int));
                assert(dv.take(i + 1).last() == dv[i as int]);
            }
            match &vars[i] {
                ClassVarDeclaration::Static(decl) => {
                    entries.push(
                        SymEntry {
                            name: decl.var_name.clone(),
                            kind: VarKind::Static(decl.var_type.dup()),
                            index: static_count,
                        },
                    );
                    static_count = static_count + 1;
                },
                ClassVarDeclaration::Field(decl) => {
                    entries.push(
                        SymEntry {
                            name: decl.var_name.clone(),
                            kind: VarKind::Field(decl.var_type.dup()),
                            index: field_count,
                        },
                    );
                    field_count = field_count + 1;
                },
            }
            proof {
                assert(view_entries(entries@) =~= spec_class_entries(dv.take(i + 1)));
            }
            i = i + 1;
        }
        proof {
            assert(dv.take(vars@.len() as int) =~= dv);
        }
        ClassSymbolTable { entries }
    }

    /// Number of entries in the table.
    pub fn len(&self) -> (n: usize)
        ensures
            n == self@.len(),
    {
        self.entries.len()
    }

    /// Number of `field` entries: the allocation size of an object of
    /// this class.
    pub fn field_count(&self) -> (n: usize)
        ensures
            n == entry_field_count(self@),
    {
        let mut n: usize = 0;
        let mut i: usize = 0;
        while i < self.entries.len()
            invariant
                i <= self.entries@.len(),
                n == entry_field_count(self@.take(i as int)),
                n <= i,
                self@.len() == self.entries@.len(),
            decreases self.entries@.len() - i,
        {
            proof {
                assert(self@.take(i + 1).drop_last() =~= self@.take(i as int));
                assert(self@.take(i + 1).last() == view_entry(self.entries@[i as int]));
            }
            if matches!(&self.entries[i].kind, VarKind::Field(_)) {
                n = n + 1;
            }
            i = i + 1;
        }
        proof {
            assert(self@.take(self.entries@.len() as int) =~= self@);
        }
        n
    }
}

/// The local table built from a parameter list, local-variable list and
/// optional implicit receiver: the receiver (if any) is argument 0,
/// parameters continue the argument indices, and locals are indexed
/// independently from 0.
/// Argument entries for a parameter list, with indices starting at `off`.
pub open spec fn spec_arg_entries(args: Seq<VarDeclV>, off: int) -> Seq<SymEntryV>
    decreases args.len(),
{
    if args.len() == 0 {
        Seq::empty()
    } else {
        spec_arg_entries(args.drop_last(), off).push(
            SymEntryV {
                name: args.last().var_name,
                kind: VarKindV::Arg(args.last().var_type),
                index: off + args.len() - 1,
            },
        )
    }
}

/// Local-variable entries for a declaration list, indexed from zero.
pub open spec fn spec_var_entries(vars: Seq<VarDeclV>) -> Seq<SymEntryV>
    decreases vars.len(),
{
    if vars.len() == 0 {
        Seq::empty()
    } else {
        spec_var_entries(vars.drop_last()).push(
            SymEntryV {
                name: vars.last().var_name,
                kind: VarKindV::Var(vars.last().var_type),
                index: vars.len() - 1,
            },
        )
    }
}

pub open spec fn spec_local_entries(
    args: Seq<VarDeclV>,
    vars: Seq<VarDeclV>,
    this: Option<Seq<char>>,
) -> Seq<SymEntryV> {
    let base: Seq<SymEntryV> = match this {
        Some(cls) => seq![
            SymEntryV { name: "this"@, kind: VarKindV::Arg(TypeV::ClassName(cls)), index: 0 },
        ],
        None => Seq::empty(),
    };
    base + spec_arg_entries(args, base.len() as int) + spec_var_entries(vars)
}

/// The subroutine-level symbol table.
pub struct LocalSymbolTable {
    pub entries: Vec<SymEntry>,
}

impl View for LocalSymbolTable {
    type V = Seq<SymEntryV>;

    open spec fn view(&self) -> Seq<SymEntryV> {
        view_entries(self.entries@)
    }
}

impl LocalSymbolTable {
    /// Build the local table for one subroutine.
    pub fn new(args: &Vec<VarDeclaration>, vars: &Vec<VarDeclaration>, this: Option<String>) -> (r:
        LocalSymbolTable)
        ensures
            r@ == spec_local_entries(
                view_var_decls(args@),
                view_var_decls(vars@),
                match this {
                    Some(c) => Some(c@),
                    None => None,
                },
            ),
    {
        let ghost av = view_var_decls(args@);
        let ghost vv = view_var_decls(vars@);
        let ghost thisv: Option<Seq<char>> = match this {
            Some(ref c) => Some(c@),
            None => None,
        };
        let mut entries: Vec<SymEntry> = Vec::new();
        if let Some(classname) = this {
            entries.push(
                SymEntry {
                    name: String::from_str("this"),
                    kind: VarKind::Arg(Type::ClassName(classname)),
                    index: 0,
                },
            );
        }
        let ghost basev = view_entries(entries@);
        let ghost off = basev.len() as int;
        proof {
            assert(av.take(0) =~= Seq::<VarDeclV>::empty());
            assert(view_entries(entries@) =~= basev + spec_arg_entries(av.take(0), off));
        }
        let mut i: usize = 0;
        while i < args.len()
            invariant
                i <= args@.len(),
                av == view_var_decls(args@),
                av.len() == args@.len(),
                entries@.len() == off + i,
                view_entries(entries@) == basev + spec_arg_entries(av.take(i as int), off),
            decreases args@.len() - i,
        {
            let decl = &args[i];
            let idx = entries.len();
            let entry = SymEntry {
                name: decl.var_name.clone(),
                kind: VarKind::Arg(decl.var_type.dup()),
                index: idx,
            };
            let ghost pre = entries@;
            let ghost ev = view_entry(entry);
            entries.push(entry);
            proof {
                assert(av.take(i + 1).drop_last() =~= av.take(i as int));
                assert(av.take(i + 1).last() == av[i as int]);
                lemma_view_entries_push(pre, entries@.last());
                lemma_concat_push(basev, spec_arg_entries(av.take(i as int), off), ev);
                assert(spec_arg_entries(av.take(i + 1), off) == spec_arg_entries(
                    av.take(i as int),
                    off,
                ).push(ev));
            }
            i = i + 1;
        }
        proof {
            assert(av.take(args@.len() as int) =~= av);
            assert(vv.take(0) =~= Seq::<VarDeclV>::empty());
            assert(view_entries(entries@) =~= basev + spec_arg_entries(av, off) + spec_var_entries(
                vv.take(0),
            ));
        }
        let mut vars_count: usize = 0;
        while vars_count < vars.len()
            invariant
                vars_count <= vars@.len(),
                vv == view_var_decls(vars@),
                vv.len() == vars@.len(),
                view_entries(entries@) == basev + spec_arg_entries(av, off) + spec_var_entries(
                    vv.take(vars_count as int),
                ),
            decreases vars@.len() - vars_count,
        {
            let decl = &vars[vars_count];
            let entry = SymEntry {
                name: decl.var_name.clone(),
                kind: VarKind::Var(decl.var_type.dup()),
                index: vars_count,
            };
            let ghost pre = entries@;
            let ghost ev = view_entry(entry);
            entries.push(entry);
            proof {
                assert(vv.take(vars_count + 1).drop_last() =~= vv.take(vars_count as int));
                assert(vv.take(vars_count + 1).last() == vv[vars_count as int]);
                lemma_view_entries_push(pre, entries@.last());
                lemma_concat_push(
                    basev + spec_arg_entries(av, off),
                    spec_var_entries(vv.take(vars_count as int)),
                    ev,
                );
                assert(spec_var_entries(vv.take(vars_count + 1)) == spec_var_entries(
                    vv.take(vars_count as int),
                ).push(ev));
            }
            vars_count = vars_count + 1;
        }
        proof {
            assert(vv.take(vars@.len() as int) =~= vv);
        }
        LocalSymbolTable { entries }
    }
}

/// Twin of the combined table: both entry lists and the visibility flag.
pub struct SymView {
    pub class: Seq<SymEntryV>,
    pub local: Seq<SymEntryV>,
    pub filter_field: bool,
}

/// Combined resolution: local entries first; class entries next, with
/// `field` entries hidden when `filter_field` is set.
pub open spec fn spec_resolve(st: SymView, name: Seq<char>) -> Option<SymEntryV> {
    match lookup(st.local, name) {
        Some(e) => Some(e),
        None => match lookup(st.class, name) {
            Some(e) => if st.filter_field && e.kind is Field {
                None
            } else {
                Some(e)
            },
            None => None,
        },
    }
}

/// The combined per-subroutine symbol table.
pub struct SymbolTable<'c> {
    pub class_table: &'c ClassSymbolTable,
    pub local_table: LocalSymbolTable,
    pub filter_field: bool,
}

impl<'c> View for SymbolTable<'c> {
    type V = SymView;

    open spec fn view(&self) -> SymView {
        SymView { class: self.class_table@, local: self.local_table@, filter_field: self.filter_field }
    }
}

impl<'c> SymbolTable<'c> {
    pub fn new(class_table: &'c ClassSymbolTable, local_table: LocalSymbolTable, filter_field: bool) -> (r:
        SymbolTable<'c>)
        ensures
            r@ == (SymView { class: class_table@, local: local_table@, filter_field }),
    {
        SymbolTable { class_table, local_table, filter_field }
    }

    /// Resolve a name, or report that it is not visible here.
    pub fn get<'s>(&'s self, name: &str) -> (r: Option<&'s SymEntry>)
        ensures
            match r {
                Some(e) => spec_resolve(self@, name@) == Some(view_entry(*e)),
                None => spec_resolve(self@, name@) is None,
            },
    {
        let local = lookup_entries(&self.local_table.entries, name);
        match local {
            Some(e) => Some(e),
            None => match lookup_entries(&self.class_table.entries, name) {
                Some(e) => {
                    if self.filter_field && matches!(&e.kind, VarKind::Field(_)) {
                        None
                    } else {
                        Some(e)
                    }
                },
                None => None,
            },
        }
    }
}

} // verus!
