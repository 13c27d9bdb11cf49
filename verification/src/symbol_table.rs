//! Scoped name resolution: a stack of symbol tables, the innermost scope on
//! top. Each table is modelled as a `Map` from the identifier's characters
//! to the symbol's information; the stack as a `Seq` of such maps.

use vstd::prelude::*;
use crate::chars::char_vec_eq;
use crate::error::ErrorType;

verus! {

/// The primitive and named types of the source language.
#[derive(Debug, Clone, PartialEq)]
pub enum DataType {
    Integer,
    Float,
    Boolean,
    String,
    Char,
    Void,
    Struct(Vec<char>),
    Enum(Vec<char>),
}

/// Mathematical model of a `DataType`: names become character sequences.
pub enum DataTypeV {
    Integer,
    Float,
    Boolean,
    String,
    Char,
    Void,
    Struct(Seq<char>),
    Enum(Seq<char>),
}

impl View for DataType {
    type V = DataTypeV;

    open spec fn view(&self) -> DataTypeV {
        match self {
            DataType::Integer => DataTypeV::Integer,
            DataType::Float => DataTypeV::Float,
            DataType::Boolean => DataTypeV::Boolean,
            DataType::String => DataTypeV::String,
            DataType::Char => DataTypeV::Char,
            DataType::Void => DataTypeV::Void,
            DataType::Struct(n) => DataTypeV::Struct(n@),
            DataType::Enum(n) => DataTypeV::Enum(n@),
        }
    }
}

/// What a name is bound to: a local variable, a function parameter, or a
/// function with its signature.
#[derive(Debug, Clone, PartialEq)]
pub enum SymbolKind {
    Variable,
    Parameter,
    Function { params: Vec<DataType>, returns: DataType },
}

/// Model of a `SymbolKind`.
pub enum SymbolKindV {
    Variable,
    Parameter,
    Function { params: Seq<DataTypeV>, returns: DataTypeV },
}

impl View for SymbolKind {
    type V = SymbolKindV;

    open spec fn view(&self) -> SymbolKindV {
        match self {
            SymbolKind::Variable => SymbolKindV::Variable,
            SymbolKind::Parameter => SymbolKindV::Parameter,
            SymbolKind::Function { params, returns } => SymbolKindV::Function {
                params: params@.map_values(|d: DataType| d@),
                returns: returns@,
            },
        }
    }
}

/// Everything recorded about one bound name. The `storage_slot` is the
/// identifier of the stack slot the IR builder allocated for the binding;
/// it is filled in lazily, on the binding's first emission.
#[derive(Debug, Clone, PartialEq)]
pub struct SymbolInfo {
    pub data_type: DataType,
    pub kind: SymbolKind,
    pub storage_slot: Option<usize>,
}

/// Model of a `SymbolInfo`.
pub struct SymbolInfoV {
    pub data_type: DataTypeV,
    pub kind: SymbolKindV,
    pub storage_slot: Option<usize>,
}

impl View for SymbolInfo {
    type V = SymbolInfoV;

    open spec fn view(&self) -> SymbolInfoV {
        SymbolInfoV {
            data_type: self.data_type@,
            kind: self.kind@,
            storage_slot: self.storage_slot,
        }
    }
}

/// One scope's bindings, stored as an association list whose later entries
/// shadow earlier ones; the abstraction is the finite map the list folds to.
pub struct SymbolTable {
    pub entries: Vec<(Vec<char>, SymbolInfo)>,
}

/// The map an association list denotes: each entry overwrites what stands
/// for its key so far, exactly as a hash-map insert would.
pub open spec fn entries_map(s: Seq<(Vec<char>, SymbolInfo)>) -> Map<Seq<char>, SymbolInfoV>
    decreases s.len(),
{
    if s.len() == 0 {
        Map::empty()
    } else {
        entries_map(s.drop_last()).insert(s.last().0@, s.last().1@)
    }
}

impl View for SymbolTable {
    type V = Map<Seq<char>, SymbolInfoV>;

    open spec fn view(&self) -> Map<Seq<char>, SymbolInfoV> {
        entries_map(self.entries@)
    }
}

impl SymbolTable {
    /// An empty scope.
    pub fn new() -> (t: SymbolTable)
        ensures
            t@ == Map::<Seq<char>, SymbolInfoV>::empty(),
    {
        SymbolTable { entries: Vec::new() }
    }

    /// Binds `name` to `info`, shadowing any earlier binding of the same
    /// name in this scope.
    pub fn insert(&mut self, name: Vec<char>, info: SymbolInfo)
        ensures
            final(self)@ == old(self)@.insert(name@, info@),
    {
        let ghost before = self.entries@;
        self.entries.push((name, info));
        proof {
            assert(self.entries@.drop_last() =~= before);
        }
    }

    /// Looks the name up in this one scope.
    pub fn get(&self, name: &Vec<char>) -> (r: Option<&SymbolInfo>)
        ensures
            match r {
                Some(info) => self@.contains_key(name@) && info@ == self@[name@],
                None => !self@.contains_key(name@),
            },
    {
        let mut i: usize = self.entries.len();
        proof {
            assert(self.entries@.take(i as int) =~= self.entries@);
        }
        while i > 0
            invariant
                i <= self.entries@.len(),
                entries_map(self.entries@).contains_key(name@) == entries_map(
                    self.entries@.take(i as int),
                ).contains_key(name@),
                entries_map(self.entries@).contains_key(name@) ==> entries_map(
                    self.entries@,
                )[name@] == entries_map(self.entries@.take(i as int))[name@],
            decreases i,
        {
            i = i - 1;
            proof {
                assert(self.entries@.take(i + 1 as int).drop_last() =~= self.entries@.take(
                    i as int,
                ));
                assert(self.entries@.take(i + 1 as int).last() == self.entries@[i as int]);
            }
            let e = &self.entries[i];
            if char_vec_eq(&e.0, name) {
                return Some(&e.1);
            }
        }
        proof {
            assert(self.entries@.take(0) =~= Seq::<(Vec<char>, SymbolInfo)>::empty());
        }
        None
    }
}

/// The scope stack: the sequence's last element is the innermost scope.
pub struct SymbolTableStack {
    pub elements: Vec<SymbolTable>,
}

/// Name resolution over a stack of scopes: the innermost scope that binds
/// the name wins; `None` when no scope binds it.
pub open spec fn stack_lookup(s: Seq<Map<Seq<char>, SymbolInfoV>>, name: Seq<char>) -> Option<
    SymbolInfoV,
>
    decreases s.len(),
{
    if s.len() == 0 {
        None
    } else if s.last().contains_key(name) {
        Some(s.last()[name])
    } else {
        stack_lookup(s.drop_last(), name)
    }
}

impl View for SymbolTableStack {
    type V = Seq<Map<Seq<char>, SymbolInfoV>>;

    open spec fn view(&self) -> Seq<Map<Seq<char>, SymbolInfoV>> {
        self.elements@.map_values(|t: SymbolTable| t@)
    }
}

impl SymbolTableStack {
    /// An empty stack: no scope is open.
    pub fn new() -> (s: SymbolTableStack)
        ensures
            s@ == Seq::<Map<Seq<char>, SymbolInfoV>>::empty(),
    {
        let s = SymbolTableStack { elements: Vec::new() };
        proof {
            assert(s@ =~= Seq::<Map<Seq<char>, SymbolInfoV>>::empty());
        }
        s
    }

    /// Opens a scope: pushes the table onto the stack.
    pub fn push(&mut self, item: SymbolTable)
        ensures
            final(self)@ == old(self)@.push(item@),
    {
        self.elements.push(item);
        proof {
            assert(self@ =~= old(self)@.push(item@));
        }
    }

    /// Closes the innermost scope, handing its table back; `None` on an
    /// empty stack.
    pub fn pop(&mut self) -> (r: Option<SymbolTable>)
        ensures
            match r {
                Some(t) => old(self)@.len() > 0 && t@ == old(self)@.last() && final(self)@ == old(
                    self,
                )@.drop_last(),
                None => old(self)@.len() == 0 && final(self)@ == old(self)@,
            },
    {
        let r = self.elements.pop();
        proof {
            if old(self).elements@.len() > 0 {
                assert(self@ =~= old(self)@.drop_last());
            } else {
                assert(self@ =~= old(self)@);
            }
        }
        r
    }

    /// The innermost scope, without removing it.
    pub fn peek(&self) -> (r: Option<&SymbolTable>)
        ensures
            match r {
                Some(t) => self@.len() > 0 && t@ == self@.last(),
                None => self@.len() == 0,
            },
    {
        self.elements.last()
    }

    /// Whether no scope is open.
    pub fn is_empty(&self) -> (r: bool)
        ensures
            r == (self@.len() == 0),
    {
        self.elements.is_empty()
    }

    /// How many scopes are open.
    pub fn size(&self) -> (r: usize)
        ensures
            r == self@.len(),
    {
        self.elements.len()
    }

    /// Resolves a name by walking the scopes from the innermost outwards
    /// and returning the first binding found.
    pub fn lookup(&self, name: &Vec<char>) -> (r: Option<&SymbolInfo>)
        ensures
            match r {
                Some(info) => stack_lookup(self@, name@) == Some(info@),
                None => stack_lookup(self@, name@) is None,
            },
    {
        let mut i: usize = self.elements.len();
        proof {
            assert(self@.take(i as int) =~= self@);
        }
        while i > 0
            invariant
                i <= self.elements@.len(),
                stack_lookup(self@, name@) == stack_lookup(self@.take(i as int), name@),
            decreases i,
        {
            i = i - 1;
            proof {
                assert(self@.take(i + 1 as int).drop_last() =~= self@.take(i as int));
                assert(self@.take(i + 1 as int).last() == self.elements@[i as int]@);
            }
            let t = &self.elements[i];
            let r = t.get(name);
            if r.is_some() {
                return r;
            }
        }
        proof {
            assert(self@.take(0) =~= Seq::<Map<Seq<char>, SymbolInfoV>>::empty());
        }
        None
    }

    /// Binds `name` in the innermost scope; an internal error when no scope
    /// is open.
    pub fn insert_in_top(&mut self, name: Vec<char>, info: SymbolInfo) -> (r: Result<
        (),
        ErrorType,
    >)
        ensures
            match r {
                Ok(()) => old(self)@.len() > 0 && final(self)@ == old(self)@.update(
                    old(self)@.len() - 1,
                    old(self)@.last().insert(name@, info@),
                ),
                Err(e) => old(self)@.len() == 0 && final(self)@ == old(self)@ && e
                    == (ErrorType::DevError {}),
            },
    {
        match self.elements.pop() {
            None => {
                proof {
                    assert(self@ =~= old(self)@);
                }
                Err(ErrorType::DevError {})
            },
            Some(mut t) => {
                t.insert(name, info);
                self.elements.push(t);
                proof {
                    assert(self@ =~= old(self)@.update(
                        old(self)@.len() - 1,
                        old(self)@.last().insert(name@, info@),
                    ));
                }
                Ok(())
            },
        }
    }
}

} // verus!
