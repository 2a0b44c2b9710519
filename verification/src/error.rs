//! What can go wrong.
use vstd::prelude::*;

verus! {

broadcast use vstd::seq::group_seq_axioms;

/// What can go wrong.
#[derive(Debug)]
pub enum GitAiError {
    /// The operating system refused; its message.
    IoError(String),
    /// A git command ended with a failure.
    GitCliError { code: Option<i32>, stderr: String, args: Vec<String> },
    /// The output of a git command was not UTF-8.
    FromUtf8Error,
    /// A message.
    Generic(String),
    /// A message that ends with an account of its cause.
    Caused(String, Box<GitAiError>),
}

/// What a `GitAiError` holds.
pub enum GitAiErrorView {
    IoError(Seq<char>),
    GitCliError { code: Option<i32>, stderr: Seq<char>, args: Seq<Seq<char>> },
    FromUtf8Error,
    Generic(Seq<char>),
    Caused(Seq<char>, Box<GitAiErrorView>),
}

/// What a `GitAiError` holds.
pub open spec fn error_view(e: GitAiError) -> GitAiErrorView
    decreases e,
{
    match e {
        GitAiError::IoError(m) => GitAiErrorView::IoError(m@),
        GitAiError::GitCliError { code, stderr, args } => GitAiErrorView::GitCliError {
            code,
            stderr: stderr@,
            args: args.deep_view(),
        },
        GitAiError::FromUtf8Error => GitAiErrorView::FromUtf8Error,
        GitAiError::Generic(m) => GitAiErrorView::Generic(m@),
        GitAiError::Caused(m, cause) => GitAiErrorView::Caused(m@, Box::new(error_view(*cause))),
    }
}

impl DeepView for GitAiError {
    type V = GitAiErrorView;

    open spec fn deep_view(&self) -> GitAiErrorView {
        error_view(*self)
    }
}

impl Clone for GitAiError {
    fn clone(&self) -> (r: Self)
        ensures
            r.deep_view() == self.deep_view(),
        decreases self,
    {
        match self {
            GitAiError::IoError(m) => GitAiError::IoError(m.clone()),
            GitAiError::GitCliError { code, stderr, args } => {
                let copy = clone_texts(args);
                GitAiError::GitCliError { code: *code, stderr: stderr.clone(), args: copy }
            },
            GitAiError::FromUtf8Error => GitAiError::FromUtf8Error,
            GitAiError::Generic(m) => GitAiError::Generic(m.clone()),
            GitAiError::Caused(m, cause) => {
                let inner: GitAiError = (&**cause).clone();
                GitAiError::Caused(m.clone(), Box::new(inner))
            },
        }
    }
}

/// Copies a list of strings.
pub fn clone_texts(texts: &Vec<String>) -> (r: Vec<String>)
    ensures
        r@ == texts@,
        r.deep_view() == texts.deep_view(),
{
    let r = texts.clone();
    assert(r@ =~= texts@);
    r
}

/// An error that is a message.
pub fn generic(message: &str) -> (r: GitAiError)
    ensures
        r.deep_view() == GitAiErrorView::Generic(message@),
{
    GitAiError::Generic(message.to_string())
}

} // verus!
