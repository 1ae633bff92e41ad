use vstd::prelude::*;

verus! {

/// The media type of Terraform Enterprise API requests.
pub const JSON_API_CONTENT_TYPE: &'static str = "application/vnd.api+json";

/// What went wrong while talking to Terraform Enterprise.
#[derive(Debug)]
pub enum GenericError {
    JsonParseError,
    DataNotFound,
    PatchError,
}

/// An error kind together with a human readable message.
#[derive(Debug)]
pub struct CustomError {
    pub err_type: GenericError,
    pub err_msg: String,
}

} // verus!
