//! Back ends that turn an IR module into an artefact.
use vstd::prelude::*;

pub mod llvm;
pub mod native;
pub mod parallel;
pub mod text;

use crate::ir::Module;
use crate::text::push_str;

verus! {

/// Options shared by every back end.
#[derive(Debug)]
pub struct BackendOptions {
    pub optimize: bool,
    pub debug_info: bool,
    pub target_triple: Option<String>,
}

impl Default for BackendOptions {
    fn default() -> (o: BackendOptions)
        ensures
            !o.optimize,
            !o.debug_info,
            o.target_triple is None,
    {
        BackendOptions { optimize: false, debug_info: false, target_triple: None }
    }
}

/// Why a back end could not produce its artefact.
#[derive(Debug, Clone)]
pub enum BackendError {
    Unsupported(String),
    Internal(String),
}

/// A back end error with its message as a character sequence.
pub enum SpecBackendError {
    Unsupported(Seq<char>),
    Internal(Seq<char>),
}

impl View for BackendError {
    type V = SpecBackendError;

    open spec fn view(&self) -> SpecBackendError {
        match self {
            BackendError::Unsupported(m) => SpecBackendError::Unsupported(m@),
            BackendError::Internal(m) => SpecBackendError::Internal(m@),
        }
    }
}

/// The outcome of a rendering step: text, or the first error met.
pub type Rendered = Result<Seq<char>, SpecBackendError>;

/// The pieces one after another, or the first error among them.
pub open spec fn concat_results(rs: Seq<Rendered>) -> Rendered
    decreases rs.len(),
{
    if rs.len() == 0 {
        Ok(Seq::empty())
    } else {
        match concat_results(rs.drop_last()) {
            Err(e) => Err(e),
            Ok(prefix) => match rs.last() {
                Ok(s) => Ok(prefix + s),
                Err(e) => Err(e),
            },
        }
    }
}

/// One more piece.
pub proof fn lemma_concat_results_push(rs: Seq<Rendered>, r: Rendered)
    ensures
        concat_results(rs.push(r)) == match concat_results(rs) {
            Err(e) => Err(e),
            Ok(prefix) => match r {
                Ok(s) => Ok(prefix + s),
                Err(e) => Err(e),
            },
        },
{
    assert(rs.push(r).drop_last() =~= rs);
}

/// An error among the first pieces is the error of the whole.
pub proof fn lemma_concat_results_err(rs: Seq<Rendered>, k: int)
    requires
        0 <= k <= rs.len(),
        concat_results(rs.take(k)) is Err,
    ensures
        concat_results(rs) == concat_results(rs.take(k)),
    decreases rs.len() - k,
{
    if k < rs.len() {
        lemma_concat_results_push(rs.take(k), rs[k]);
        assert(rs.take(k + 1) =~= rs.take(k).push(rs[k]));
        lemma_concat_results_err(rs, k + 1);
    } else {
        assert(rs.take(k) =~= rs);
    }
}

/// The displayed text of a back end error.
pub open spec fn backend_error_text(e: BackendError) -> Seq<char> {
    match e {
        BackendError::Unsupported(m) => "unsupported backend feature: "@ + m@,
        BackendError::Internal(m) => "backend error: "@ + m@,
    }
}

impl BackendError {
    /// A feature the back end does not support.
    pub fn unsupported(message: &str) -> (e: BackendError)
        ensures
            e matches BackendError::Unsupported(m) && m@ == message@,
    {
        BackendError::Unsupported(crate::text::to_owned_string(message))
    }

    /// A failure inside the back end.
    pub fn internal(message: &str) -> (e: BackendError)
        ensures
            e matches BackendError::Internal(m) && m@ == message@,
    {
        BackendError::Internal(crate::text::to_owned_string(message))
    }

    /// The error as displayed to users.
    pub fn to_display_string(&self) -> (s: String)
        ensures
            s@ == backend_error_text(*self),
    {
        let mut s = String::new();
        match self {
            BackendError::Unsupported(m) => {
                push_str(&mut s, "unsupported backend feature: ");
                push_str(&mut s, m.as_str());
            },
            BackendError::Internal(m) => {
                push_str(&mut s, "backend error: ");
                push_str(&mut s, m.as_str());
            },
        }
        assert(s@ =~= backend_error_text(*self));
        s
    }
}

/// A code generator from IR modules to some artefact.
pub trait Backend {
    type Output;

    /// Whether `result` is what compiling `module` with `options` gives.
    spec fn compiles_to(
        &self,
        module: &Module,
        options: &BackendOptions,
        result: Result<Self::Output, BackendError>,
    ) -> bool;

    fn compile(&self, module: &Module, options: &BackendOptions) -> (r: Result<
        Self::Output,
        BackendError,
    >)
        requires
            module.wf(),
        ensures
            self.compiles_to(module, options, r),
    ;
}

/// Compiles `module` with `backend`.
pub fn run<B: Backend>(backend: &B, module: &Module, options: &BackendOptions) -> (r: Result<
    B::Output,
    BackendError,
>)
    requires
        module.wf(),
    ensures
        backend.compiles_to(module, options, r),
{
    backend.compile(module, options)
}

/// The number of workers a parallel compile of `modules` modules uses on a
/// machine with `available` hardware threads: one worker per module beyond
/// the first (at least one), never more than the machine offers.
pub open spec fn spec_worker_count(modules: int, available: int) -> int {
    let by_modules = if modules > 1 { modules - 1 } else { 1 };
    let cap = if available > 0 { available } else { 1 };
    if by_modules < cap { by_modules } else { cap }
}

/// Number of workers to use when compiling `modules` modules on a machine
/// that reports `available` hardware threads.
pub fn recommended_worker_count_with_available(modules: usize, available: usize) -> (n: usize)
    ensures
        n == spec_worker_count(modules as int, available as int),
{
    let by_modules = if modules > 1 { modules - 1 } else { 1 };
    let cap = if available > 0 { available } else { 1 };
    if by_modules < cap { by_modules } else { cap }
}

} // verus!
