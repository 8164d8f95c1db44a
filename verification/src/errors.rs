//! The library's error type.
use vstd::prelude::*;

verus! {

#[verifier::external_type_specification]
#[verifier::external_body]
pub struct ExIoError(std::io::Error);

#[verifier::external_type_specification]
#[verifier::external_body]
pub struct ExFromUtf8Error(std::string::FromUtf8Error);

#[verifier::external_type_specification]
#[verifier::external_body]
pub struct ExUtf8Error(std::str::Utf8Error);

#[verifier::external_type_specification]
#[verifier::external_body]
pub struct ExSystemTimeError(std::time::SystemTimeError);

#[verifier::external_type_specification]
#[verifier::external_body]
#[verifier::reject_recursive_types(T)]
pub struct ExBaseError<T>(rustpython_parser_core::BaseError<T>);

#[verifier::external_type_specification]
#[verifier::external_body]
pub struct ExParseErrorType(rustpython_parser::ParseErrorType);

#[verifier::external_type_specification]
#[verifier::external_body]
pub struct ExWalkdirError(walkdir::Error);

#[verifier::external_type_specification]
#[verifier::external_body]
pub struct ExRegexError(regex::Error);

#[verifier::external_type_specification]
#[verifier::external_body]
pub struct ExJsonError(serde_json::Error);

#[verifier::external_type_specification]
#[verifier::external_body]
pub struct ExSynError(syn::Error);

/// Everything that can go wrong while finding and running tests.
#[derive(Debug)]
pub enum FztError {
    IoError(std::io::Error),
    StringFromUtf8(std::string::FromUtf8Error),
    StringParsing(std::str::Utf8Error),
    GeneralParsingError(String),
    PythonParsingError(rustpython_parser::ParseError),
    TimeError(std::time::SystemTimeError),
    DictionaryWalking(walkdir::Error),
    Regex(regex::Error),
    Json(serde_json::Error),
    UserError(String),
    JavaParser(String),
    PythonParser(String),
    RustParser(syn::Error),
    InvalidArgument(String),
    RustError(String),
    PythonError(String),
    InternalError(String),
    RuntumeError(String),
    RuntimeError(String),
}

} // verus!
