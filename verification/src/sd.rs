//! What is told of a method, in the shape in which it is handed on.

use vstd::prelude::*;
use crate::trans::text::string_views;

verus! {

/// The code of a method: its limits, the number of entries that its
/// arguments take, and its listing.
#[derive(Clone, PartialEq, Eq, Debug)]
pub struct CodeSerde {
    pub max_stack: u16,
    pub max_locals: u16,
    pub args_size: usize,
    pub codes: Vec<String>,
    pub enable_verbose: bool,
}

pub struct CodeSerdeView {
    pub max_stack: u16,
    pub max_locals: u16,
    pub args_size: usize,
    pub codes: Seq<Seq<char>>,
    pub enable_verbose: bool,
}

impl View for CodeSerde {
    type V = CodeSerdeView;

    open spec fn view(&self) -> CodeSerdeView {
        CodeSerdeView {
            max_stack: self.max_stack,
            max_locals: self.max_locals,
            args_size: self.args_size,
            codes: string_views(self.codes@),
            enable_verbose: self.enable_verbose,
        }
    }
}

/// What is told of a method without code.
pub open spec fn no_code() -> CodeSerdeView {
    CodeSerdeView {
        max_stack: 0,
        max_locals: 0,
        args_size: 0,
        codes: Seq::empty(),
        enable_verbose: false,
    }
}

impl Default for CodeSerde {
    fn default() -> (code: CodeSerde)
        ensures
            code@ == no_code(),
    {
        let code = CodeSerde {
            max_stack: 0,
            max_locals: 0,
            args_size: 0,
            codes: Vec::new(),
            enable_verbose: false,
        };
        assert(code@.codes =~= Seq::<Seq<char>>::empty());
        code
    }
}

} // verus!
