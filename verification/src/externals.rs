//! Types from outside the library that the configuration carries through
//! without looking inside them.

use vstd::prelude::*;

verus! {

/// A path of the file system (the TLS certificate and private key).
#[verifier::external_type_specification]
#[verifier::external_body]
pub struct ExPathBuf(std::path::PathBuf);

/// The host name of the SMTP server.
#[verifier::external_type_specification]
#[verifier::external_body]
#[verifier::reject_recursive_types(S)]
pub struct ExHost<S>(url::Host<S>);

/// `PathBuf::clone`: no postcondition on the copy; the configuration only
/// carries paths through.
pub assume_specification[<std::path::PathBuf as Clone>::clone](p: &std::path::PathBuf) -> std::path::PathBuf;

/// `url::Host::clone`: no postcondition on the copy; the configuration only
/// carries host names through.
pub assume_specification<S: Clone>[<url::Host<S> as Clone>::clone](h: &url::Host<S>) -> url::Host<S>;

} // verus!
