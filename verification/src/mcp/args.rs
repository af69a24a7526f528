//! The arguments of a tool call. An argument that is null counts as absent.

use vstd::prelude::*;
use vstd::string::*;

use crate::json::{Doc, Json, Num};
use crate::mcp::errors::{ErrorView, ToolError};
use crate::text::comma_separated;

verus! {

/// The string argument `key`, if it is there.
pub open spec fn text_arg(args: Doc, key: Seq<char>) -> Result<Option<Seq<char>>, ErrorView> {
    match args.member(key) {
        None => Ok(None),
        Some(Doc::Null) => Ok(None),
        Some(Doc::Text(s)) => Ok(Some(s)),
        Some(got) => Err(ToolError::NotText { key, got }),
    }
}

/// The string argument `key`, which must be there.
pub open spec fn required_text(args: Doc, key: Seq<char>) -> Result<Seq<char>, ErrorView> {
    match text_arg(args, key) {
        Ok(Some(s)) => Ok(s),
        Ok(None) => Err(ToolError::Missing(key)),
        Err(e) => Err(e),
    }
}

/// The non-negative integer argument `key`, if it is there.
pub open spec fn natural_arg(args: Doc, key: Seq<char>) -> Result<Option<usize>, ErrorView> {
    match args.member(key) {
        None => Ok(None),
        Some(Doc::Null) => Ok(None),
        Some(Doc::Number(Num::Natural(n))) => Ok(Some(n as usize)),
        Some(got) => Err(ToolError::NotNatural { key, got }),
    }
}

/// The non-negative integer argument `key`, which must be there.
pub open spec fn required_natural(args: Doc, key: Seq<char>) -> Result<usize, ErrorView> {
    match natural_arg(args, key) {
        Ok(Some(n)) => Ok(n),
        Ok(None) => Err(ToolError::Missing(key)),
        Err(e) => Err(e),
    }
}

/// The boolean argument `key`, if it is there.
pub open spec fn flag_arg(args: Doc, key: Seq<char>) -> Result<Option<bool>, ErrorView> {
    match args.member(key) {
        None => Ok(None),
        Some(Doc::Null) => Ok(None),
        Some(Doc::Bool(b)) => Ok(Some(b)),
        Some(got) => Err(ToolError::NotFlag { key, got }),
    }
}

/// Whether all of `items` are strings.
pub open spec fn all_texts(items: Seq<Doc>) -> bool {
    forall|i: int| 0 <= i < items.len() ==> #[trigger] items[i] is Text
}

/// The list argument `key`, if it is there: an array of strings, or one string
/// with commas between the items.
pub open spec fn texts_arg(args: Doc, key: Seq<char>) -> Result<Option<Seq<Seq<char>>>, ErrorView> {
    match args.member(key) {
        None => Ok(None),
        Some(Doc::Null) => Ok(None),
        Some(Doc::Array(items)) => if all_texts(items) {
            Ok(Some(items.map_values(|d: Doc| d->Text_0)))
        } else {
            Err(ToolError::NotAllTexts(key))
        },
        Some(Doc::Text(s)) => Ok(Some(crate::text::filled(crate::text::pieces(s, ',')))),
        Some(got) => Err(ToolError::NotTexts { key, got }),
    }
}

/// Reads a required string argument.
pub fn req_str<'a>(args: &'a Json, key: &str) -> (r: Result<&'a str, ToolError>)
    ensures
        match r {
            Ok(s) => required_text(args@, key@) == Ok::<_, ErrorView>(s@),
            Err(e) => required_text(args@, key@) == Err::<Seq<char>, _>(e@),
        },
{
    match opt_str(args, key) {
        Ok(Some(s)) => Ok(s),
        Ok(None) => Err(ToolError::Missing(key.to_owned())),
        Err(e) => Err(e),
    }
}

/// Reads an optional string argument.
pub fn opt_str<'a>(args: &'a Json, key: &str) -> (r: Result<Option<&'a str>, ToolError>)
    ensures
        match r {
            Ok(o) => text_arg(args@, key@) == Ok::<_, ErrorView>(o.deep_view()),
            Err(e) => text_arg(args@, key@) == Err::<Option<Seq<char>>, _>(e@),
        },
{
    match args.get(key) {
        None => Ok(None),
        Some(Json::Null) => Ok(None),
        Some(Json::Text(s)) => Ok(Some(s.as_str())),
        Some(other) => Err(ToolError::NotText { key: key.to_owned(), got: other.copy() }),
    }
}

/// Reads an optional non-negative integer argument.
pub fn opt_usize(args: &Json, key: &str) -> (r: Result<Option<usize>, ToolError>)
    ensures
        match r {
            Ok(o) => natural_arg(args@, key@) == Ok::<_, ErrorView>(o),
            Err(e) => natural_arg(args@, key@) == Err::<Option<usize>, _>(e@),
        },
{
    match args.get(key) {
        None => Ok(None),
        Some(Json::Null) => Ok(None),
        Some(Json::Number(Num::Natural(n))) => Ok(
            Some(
                #[verifier::truncate]
                (*n as usize),
            ),
        ),
        Some(other) => Err(ToolError::NotNatural { key: key.to_owned(), got: other.copy() }),
    }
}

/// Reads a required non-negative integer argument.
pub fn req_usize(args: &Json, key: &str) -> (r: Result<usize, ToolError>)
    ensures
        match r {
            Ok(n) => required_natural(args@, key@) == Ok::<_, ErrorView>(n),
            Err(e) => required_natural(args@, key@) == Err::<usize, _>(e@),
        },
{
    match opt_usize(args, key) {
        Ok(Some(n)) => Ok(n),
        Ok(None) => Err(ToolError::Missing(key.to_owned())),
        Err(e) => Err(e),
    }
}

/// Reads an optional boolean argument.
pub fn opt_bool(args: &Json, key: &str) -> (r: Result<Option<bool>, ToolError>)
    ensures
        match r {
            Ok(o) => flag_arg(args@, key@) == Ok::<_, ErrorView>(o),
            Err(e) => flag_arg(args@, key@) == Err::<Option<bool>, _>(e@),
        },
{
    match args.get(key) {
        None => Ok(None),
        Some(Json::Null) => Ok(None),
        Some(Json::Bool(b)) => Ok(Some(*b)),
        Some(other) => Err(ToolError::NotFlag { key: key.to_owned(), got: other.copy() }),
    }
}

/// Reads an optional list of strings.
pub fn opt_string_vec(args: &Json, key: &str) -> (r: Result<Option<Vec<String>>, ToolError>)
    ensures
        match r {
            Ok(o) => texts_arg(args@, key@) == Ok::<_, ErrorView>(o.deep_view()),
            Err(e) => texts_arg(args@, key@) == Err::<Option<Seq<Seq<char>>>, _>(e@),
        },
{
    match args.get(key) {
        None => Ok(None),
        Some(Json::Null) => Ok(None),
        Some(Json::Array(items)) => {
            let ghost docs = Json::Array(*items)@->Array_0;
            let mut out: Vec<String> = Vec::new();
            for i in 0..items.len()
                invariant
                    docs == Json::Array(*items)@->Array_0,
                    docs.len() == items.len(),
                    args@.member(key@) == Some(Doc::Array(docs)),
                    out.len() == i,
                    forall|j: int|
                        0 <= j < i ==> (#[trigger] docs[j]) == Doc::Text(out[j]@),
            {
                assert(docs[i as int] == items@[i as int]@);
                match items[i].as_text() {
                    Some(s) => out.push(s.to_owned()),
                    None => {
                        return Err(ToolError::NotAllTexts(key.to_owned()));
                    },
                }
            }
            assert(out.deep_view() =~= docs.map_values(|d: Doc| d->Text_0));
            Ok(Some(out))
        },
        Some(Json::Text(s)) => Ok(Some(comma_separated(s))),
        Some(other) => Err(ToolError::NotTexts { key: key.to_owned(), got: other.copy() }),
    }
}

/// An argument that is absent or null is not there, which only matters where it
/// is required.
pub proof fn a_null_argument_is_not_there(args: Doc, key: Seq<char>)
    requires
        args.member(key) is None || args.member(key) == Some(Doc::Null),
    ensures
        text_arg(args, key) == Ok::<_, ErrorView>(None::<Seq<char>>),
        natural_arg(args, key) == Ok::<_, ErrorView>(None::<usize>),
        flag_arg(args, key) == Ok::<_, ErrorView>(None::<bool>),
        texts_arg(args, key) == Ok::<_, ErrorView>(None::<Seq<Seq<char>>>),
        required_text(args, key) == Err::<Seq<char>, ErrorView>(ToolError::Missing(key)),
        required_natural(args, key) == Err::<usize, ErrorView>(ToolError::Missing(key)),
{
}

/// An argument of the right type is read as it was given, and one of another
/// type is an error that shows what was given.
pub proof fn an_argument_is_read_as_it_was_given(args: Doc, key: Seq<char>, given: Doc)
    requires
        args.member(key) == Some(given),
        !(given is Null),
    ensures
        match given {
            Doc::Text(s) => text_arg(args, key) == Ok::<_, ErrorView>(Some(s)) && required_text(
                args,
                key,
            ) == Ok::<_, ErrorView>(s),
            _ => text_arg(args, key) == Err::<Option<Seq<char>>, ErrorView>(
                ToolError::NotText { key, got: given },
            ) && required_text(args, key) == Err::<Seq<char>, ErrorView>(
                ToolError::NotText { key, got: given },
            ),
        },
        match given {
            Doc::Number(Num::Natural(n)) => natural_arg(args, key) == Ok::<_, ErrorView>(
                Some(n as usize),
            ) && required_natural(args, key) == Ok::<_, ErrorView>(n as usize),
            _ => natural_arg(args, key) == Err::<Option<usize>, ErrorView>(
                ToolError::NotNatural { key, got: given },
            ) && required_natural(args, key) == Err::<usize, ErrorView>(
                ToolError::NotNatural { key, got: given },
            ),
        },
        match given {
            Doc::Bool(b) => flag_arg(args, key) == Ok::<_, ErrorView>(Some(b)),
            _ => flag_arg(args, key) == Err::<Option<bool>, ErrorView>(
                ToolError::NotFlag { key, got: given },
            ),
        },
{
}

/// A list is read item by item where all items are strings, and else refused; a
/// string is read as the filled items between its commas; and a value of another
/// type is an error that shows what was given.
pub proof fn a_list_is_read_item_by_item(args: Doc, key: Seq<char>, given: Doc, i: int)
    requires
        args.member(key) == Some(given),
        !(given is Null),
    ensures
        match given {
            Doc::Array(items) => {
                &&& (forall|j: int| 0 <= j < items.len() ==> (#[trigger] items[j]) is Text) ==> (
                texts_arg(args, key) matches Ok(Some(texts)) && texts.len() == items.len() && (0
                    <= i < items.len() ==> items[i] == Doc::Text(texts[i])))
                &&& 0 <= i < items.len() && !(items[i] is Text) ==> texts_arg(args, key) == Err::<
                    Option<Seq<Seq<char>>>,
                    ErrorView,
                >(ToolError::NotAllTexts(key))
            },
            Doc::Text(s) => texts_arg(args, key) == Ok::<_, ErrorView>(
                Some(crate::text::filled(crate::text::pieces(s, ','))),
            ),
            _ => texts_arg(args, key) == Err::<Option<Seq<Seq<char>>>, ErrorView>(
                ToolError::NotTexts { key, got: given },
            ),
        },
{
}

} // verus!
