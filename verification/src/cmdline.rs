//! What the user asked for.

use vstd::prelude::*;

verus! {

/// One of the three operations on a vault, with the path of its file.
#[derive(Debug, Clone, PartialEq, Eq)]
pub enum Opts {
    /// Edit the contents of a vault, or make a new one.
    Edit { file: String },
    /// Print the contents of a vault.
    View { file: String },
    /// Change the password of a vault.
    ChangePassword { file: String },
}

/// [`Opts`] as contracts see it.
pub enum OptsView {
    Edit { file: Seq<char> },
    View { file: Seq<char> },
    ChangePassword { file: Seq<char> },
}

impl View for Opts {
    type V = OptsView;

    open spec fn view(&self) -> OptsView {
        match self {
            Opts::Edit { file } => OptsView::Edit { file: file@ },
            Opts::View { file } => OptsView::View { file: file@ },
            Opts::ChangePassword { file } => OptsView::ChangePassword { file: file@ },
        }
    }
}

impl OptsView {
    /// The path of the vault's file.
    pub open spec fn file(self) -> Seq<char> {
        match self {
            OptsView::Edit { file } => file,
            OptsView::View { file } => file,
            OptsView::ChangePassword { file } => file,
        }
    }
}

impl Opts {
    /// The path of the vault's file.
    pub fn file(&self) -> (file: &String)
        ensures
            file@ == self@.file(),
    {
        match self {
            Opts::Edit { file } => file,
            Opts::View { file } => file,
            Opts::ChangePassword { file } => file,
        }
    }
}

} // verus!
