//! The structured error shared by every stage of the pipeline: a source
//! line, a location context, and a message.

use vstd::prelude::*;
use vstd::string::StringExecFns;
use crate::numerals::{sp_dec_text, u64_text};

verus! {

/// The mathematical value of an [`Exception`].
pub struct ExceptionView {
    pub line: int,
    pub where_r: Seq<char>,
    pub message: Seq<char>,
}

/// A structured error: the source line it arose on, a location context,
/// and a message.  Every stage of the pipeline fails with this type.
#[derive(Debug, Clone)]
pub struct Exception {
    pub line: u32,
    pub message: String,
    pub where_r: String,
}

pub type Result<T> = core::result::Result<T, Exception>;

impl View for Exception {
    type V = ExceptionView;

    open spec fn view(&self) -> ExceptionView {
        ExceptionView { line: self.line as int, where_r: self.where_r@, message: self.message@ }
    }
}

impl DeepView for Exception {
    type V = ExceptionView;

    open spec fn deep_view(&self) -> ExceptionView {
        self.view()
    }
}

/// The canonical rendering of an error.
pub open spec fn sp_render(e: ExceptionView) -> Seq<char> {
    "[Line - "@ + sp_dec_text(e.line as nat) + " ] Error "@ + e.where_r + " : "@ + e.message
}

impl Exception {
    pub fn new(line: u32, where_r: &str, message: &str) -> (r: Self)
        ensures
            r@ == (ExceptionView { line: line as int, where_r: where_r@, message: message@ }),
    {
        Self { line, message: message.to_owned(), where_r: where_r.to_owned() }
    }

    /// A failed result carrying a fresh error.
    pub fn error<T>(line: u32, where_r: &str, message: &str) -> (r: Result<T>)
        ensures
            r is Err,
            r->Err_0@ == (ExceptionView {
                line: line as int,
                where_r: where_r@,
                message: message@,
            }),
    {
        Err(Exception::new(line, where_r, message))
    }

    /// Marks an internal-invariant violation.  Every fallible operation of
    /// this library reports its failure as a value, so this too returns the
    /// error rather than aborting the process.
    pub fn error_panic<T>(line: u32, where_r: &str, message: &str) -> (r: Result<T>)
        ensures
            r is Err,
            r->Err_0@ == (ExceptionView {
                line: line as int,
                where_r: where_r@,
                message: message@,
            }),
    {
        Err(Exception::new(line, where_r, message))
    }

    /// The canonical text form of the error:
    /// `[Line - <line> ] Error <location> : <message>`.
    pub fn render(&self) -> (r: String)
        ensures
            r@ == sp_render(self@),
    {
        let mut r = String::from_str("[Line - ");
        let line_text = u64_text(self.line as u64);
        r.append(line_text.as_str());
        r.append(" ] Error ");
        r.append(self.where_r.as_str());
        r.append(" : ");
        r.append(self.message.as_str());
        proof {
            assert(r@ =~= sp_render(self@));
        }
        r
    }
}

} // verus!
