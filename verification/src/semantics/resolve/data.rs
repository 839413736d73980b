//! The data name resolution produces.
use vstd::prelude::*;

use crate::runtime::store::StrMap;

verus! {

/// What resolving a module found: its path, its algebraic data types and
/// their variants, its imports, symbols, resolved paths and the
/// capabilities its functions and types declare.
#[derive(Debug)]
pub struct Resolved {
    pub module: Vec<String>,
    /// ADT name to the names of its variants.
    pub adts: StrMap<Vec<String>>,
    /// Variant name to the ADTs that have a variant of that name.
    pub variant_to_adt: StrMap<Vec<String>>,
    pub imports: Vec<ResolvedImport>,
    pub symbols: Vec<SymbolInfo>,
    pub resolved_paths: Vec<ResolvedPath>,
    pub capabilities: Vec<CapabilityBinding>,
}

impl Default for Resolved {
    fn default() -> (r: Resolved)
        ensures
            r.module@.len() == 0,
            r.adts@ == Map::<Seq<char>, Vec<String>>::empty(),
            r.variant_to_adt@ == Map::<Seq<char>, Vec<String>>::empty(),
            r.imports@.len() == 0,
            r.symbols@.len() == 0,
            r.resolved_paths@.len() == 0,
            r.capabilities@.len() == 0,
    {
        Resolved {
            module: Vec::new(),
            adts: StrMap::new(),
            variant_to_adt: StrMap::new(),
            imports: Vec::new(),
            symbols: Vec::new(),
            resolved_paths: Vec::new(),
            capabilities: Vec::new(),
        }
    }
}

/// A `use` declaration: the imported path and its alias, if any.
#[derive(Debug)]
pub struct ResolvedImport {
    pub path: Vec<String>,
    pub alias: Option<String>,
}

/// A declared name, what it denotes and where it is visible.
#[derive(Debug)]
pub struct SymbolInfo {
    pub name: String,
    pub category: SymbolCategory,
    pub scope: SymbolScope,
}

/// What a symbol denotes.
#[derive(Debug)]
pub enum SymbolCategory {
    Type { is_public: bool, params: Vec<String> },
    Variant { parent: String },
    Function { is_public: bool },
    TypeParam,
    ValueParam,
    LocalBinding,
    ImportAlias { target: Vec<String> },
}

/// Where a symbol is visible.
#[derive(Debug)]
pub enum SymbolScope {
    Module(Vec<String>),
    TypeAlias { module: Vec<String>, alias_name: String },
    Function { module: Vec<String>, function: String },
}

/// A path met in the module and the symbol it resolved to, if any.
#[derive(Debug)]
pub struct ResolvedPath {
    pub segments: Vec<String>,
    pub kind: PathKind,
    pub resolved: Option<SymbolInfo>,
}

/// The namespace a path is looked up in.
#[derive(Debug, Clone, Copy, PartialEq, Eq, Structural)]
pub enum PathKind {
    Type,
    Value,
    Variant,
}

/// A capability declared in an effect row, and where.
#[derive(Debug)]
pub struct CapabilityBinding {
    pub name: String,
    pub scope: CapabilityScope,
}

/// The item whose effect row declares a capability.
#[derive(Debug)]
pub enum CapabilityScope {
    Function { module: Vec<String>, function: String },
    TypeAlias { module: Vec<String>, alias_name: String },
}

/// The names a module makes visible to others.
#[derive(Debug)]
pub struct ModuleExports {
    pub values: StrMap<SymbolInfo>,
    pub types: StrMap<SymbolInfo>,
    pub variants: StrMap<SymbolInfo>,
}

impl Default for ModuleExports {
    fn default() -> (e: ModuleExports)
        ensures
            e.values@ == Map::<Seq<char>, SymbolInfo>::empty(),
            e.types@ == Map::<Seq<char>, SymbolInfo>::empty(),
            e.variants@ == Map::<Seq<char>, SymbolInfo>::empty(),
    {
        ModuleExports { values: StrMap::new(), types: StrMap::new(), variants: StrMap::new() }
    }
}

} // verus!
