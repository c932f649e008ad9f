//! Structured, non-fatal diagnostics shared by every stage of the build:
//! an error kind, the kind of item it concerns, the path of that item and
//! an optional message.

use vstd::prelude::*;
use crate::text::{from_chars, push_all, to_chars};

verus! {

/// The kind of failure a diagnostic reports.
#[derive(Clone, Copy, Debug, PartialEq, Eq, Structural)]
pub enum ErrorType {
    NotFound,
    Io,
    Encoding,
    Syntax,
    Circular,
    Other,
}

/// The kind of item a diagnostic concerns.
#[derive(Clone, Copy, Debug, PartialEq, Eq, Structural)]
pub enum WithItem {
    Component,
    Template,
    Data,
    File,
    NoItem,
}

/// What a `WithItem` is called in rendered messages.
pub open spec fn spec_item_label(item: WithItem) -> Seq<char> {
    match item {
        WithItem::Component => "component"@,
        WithItem::Template => "template"@,
        WithItem::Data => "data"@,
        WithItem::File => "file or directory"@,
        WithItem::NoItem => "item"@,
    }
}

impl WithItem {
    /// The human-readable label of this item kind.
    pub fn label(&self) -> (r: String)
        ensures
            r@ == spec_item_label(*self),
    {
        match self {
            WithItem::Component => from_chars(&to_chars("component")),
            WithItem::Template => from_chars(&to_chars("template")),
            WithItem::Data => from_chars(&to_chars("data")),
            WithItem::File => from_chars(&to_chars("file or directory")),
            WithItem::NoItem => from_chars(&to_chars("item")),
        }
    }
}

/// One diagnostic: what failed, which kind of item, at which path, and an
/// optional detail message.
#[derive(Debug)]
pub struct ProcessError {
    pub error_type: ErrorType,
    pub item: WithItem,
    pub path: String,
    pub message: Option<String>,
}

/// The detail part appended to a rendered diagnostic.
pub open spec fn spec_message_part(message: Option<String>) -> Seq<char> {
    match message {
        Option::Some(m) => " "@ + m@,
        Option::None => Seq::<char>::empty(),
    }
}

/// The rendered text of a diagnostic.
pub open spec fn spec_describe(e: ProcessError) -> Seq<char> {
    let head = "The "@ + spec_item_label(e.item) + " "@ + e.path@;
    match e.error_type {
        ErrorType::NotFound => head + " could not be found."@ + spec_message_part(e.message),
        ErrorType::Io => head + " encountered an IO error."@ + spec_message_part(e.message),
        ErrorType::Encoding => head + " is not valid UTF-8."@ + spec_message_part(e.message),
        ErrorType::Syntax => head + " contains a syntax error."@ + spec_message_part(e.message),
        ErrorType::Circular => head + " contains a circular dependency."@,
        ErrorType::Other => "Error encountered in "@ + spec_item_label(e.item) + " "@ + e.path@
            + "."@ + spec_message_part(e.message),
    }
}

impl ProcessError {
    /// Renders this diagnostic as one plain line of text.
    pub fn describe(&self) -> (r: String)
        ensures
            r@ == spec_describe(*self),
    {
        let mut out: Vec<char> = Vec::new();
        match self.error_type {
            ErrorType::Other => {
                push_all(&mut out, &to_chars("Error encountered in "));
                push_all(&mut out, &to_chars(self.item.label().as_str()));
                push_all(&mut out, &to_chars(" "));
                push_all(&mut out, &to_chars(self.path.as_str()));
                push_all(&mut out, &to_chars("."));
            },
            _ => {
                push_all(&mut out, &to_chars("The "));
                push_all(&mut out, &to_chars(self.item.label().as_str()));
                push_all(&mut out, &to_chars(" "));
                push_all(&mut out, &to_chars(self.path.as_str()));
                match self.error_type {
                    ErrorType::NotFound => push_all(&mut out, &to_chars(" could not be found.")),
                    ErrorType::Io => push_all(&mut out, &to_chars(" encountered an IO error.")),
                    ErrorType::Encoding => push_all(&mut out, &to_chars(" is not valid UTF-8.")),
                    ErrorType::Syntax => push_all(&mut out, &to_chars(" contains a syntax error.")),
                    _ => push_all(&mut out, &to_chars(" contains a circular dependency.")),
                }
            },
        }
        let circular = matches!(self.error_type, ErrorType::Circular);
        if !circular {
            match &self.message {
                Option::Some(m) => {
                    push_all(&mut out, &to_chars(" "));
                    push_all(&mut out, &to_chars(m.as_str()));
                },
                Option::None => {},
            }
        }
        proof {
            assert(out@ =~= spec_describe(*self));
        }
        from_chars(&out)
    }
}

/// A diagnostic with the given kind, item and path.
pub open spec fn err_is(e: ProcessError, et: ErrorType, item: WithItem, path: Seq<char>) -> bool {
    e.error_type == et && e.item == item && e.path@ == path
}

/// Maps a plain error message into a structured diagnostic, keeping the
/// success value unchanged.
pub trait MapProcErr<T>: Sized {
    fn map_proc_err(
        self,
        item: WithItem,
        error_type: ErrorType,
        path: &str,
        message: Option<String>,
    ) -> (r: Result<T, ProcessError>);
}

impl<T> MapProcErr<T> for Result<T, String> {
    /// On `Err(e)`, builds a diagnostic at `path` whose message is the
    /// given override, or `e` itself when none is given.
    fn map_proc_err(
        self,
        item: WithItem,
        error_type: ErrorType,
        path: &str,
        message: Option<String>,
    ) -> (r: Result<T, ProcessError>) {
        match self {
            Result::Ok(v) => Result::Ok(v),
            Result::Err(e) => {
                let msg = match message {
                    Option::Some(m) => m,
                    Option::None => e,
                };
                Result::Err(
                    ProcessError {
                        error_type,
                        item,
                        path: from_chars(&to_chars(path)),
                        message: Option::Some(msg),
                    },
                )
            },
        }
    }
}

} // verus!
