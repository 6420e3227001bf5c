//! Reading the files in which the crate remembers what it learnt.

use vstd::prelude::*;
use vstd::string::*;

use crate::error::Error;
use crate::text;
use crate::text_laws;

verus! {

/// What came of reading a file.
pub enum FileRead<T> {
    /// There is no such file.
    Missing,
    /// The file cannot be read; holds the reason.
    Unreadable(String),
    /// The file cannot be decoded; holds the reason.
    Malformed(String),
    /// What the file holds.
    Parsed(T),
}

/// The message for a file that cannot be decoded.
pub open spec fn malformed_text(file: Seq<char>, path: Seq<char>, reason: Seq<char>) -> Seq<char> {
    file + " at "@ + path + " is malformed: "@ + reason
}

/// The message for a file of a format version from the future.
pub open spec fn too_new_text(
    file: Seq<char>,
    path: Seq<char>,
    version: u32,
    known: u32,
) -> Seq<char> {
    file + " at "@ + path + " has schema_version="@ + text::decimal(version as nat)
        + ", this binary only knows up to "@ + text::decimal(known as nat)
}

/// The error for a file that cannot be decoded.
pub fn malformed(file: &str, path: &str, reason: &str) -> (e: Error)
    ensures
        e matches Error::Provider { message, http_status } && message@ == malformed_text(
            file@,
            path@,
            reason@,
        ) && http_status is None,
{
    let message = file.to_owned().concat(" at ").concat(path).concat(" is malformed: ").concat(
        reason,
    );
    Error::Provider { message, http_status: None }
}

/// The error for a file of a format version from the future.
pub fn too_new(file: &str, path: &str, version: u32, known: u32) -> (e: Error)
    ensures
        e matches Error::Provider { message, http_status } && message@ == too_new_text(
            file@,
            path@,
            version,
            known,
        ) && http_status is None,
{
    let v = text::decimal_of(version as u64);
    let k = text::decimal_of(known as u64);
    let message = file.to_owned().concat(" at ").concat(path).concat(
        " has schema_version=",
    ).concat(v.as_str()).concat(", this binary only knows up to ").concat(k.as_str());
    Error::Provider { message, http_status: None }
}

/// The messages name the file and where it is; one gives the reason, the other
/// both format versions.
pub proof fn law_messages(
    file: Seq<char>,
    path: Seq<char>,
    reason: Seq<char>,
    version: u32,
    known: u32,
)
    ensures
        text::has_prefix(malformed_text(file, path, reason), file + " at "@ + path),
        text::has_suffix(malformed_text(file, path, reason), reason),
        text::has_prefix(too_new_text(file, path, version, known), file + " at "@ + path),
        text::has_suffix(too_new_text(file, path, version, known), text::decimal(known as nat)),
        text::occurs(too_new_text(file, path, version, known), text::decimal(version as nat)),
{
    let head = file + " at "@ + path;
    let a = " is malformed: "@;
    let b = " has schema_version="@;
    let c = ", this binary only knows up to "@;
    let v = text::decimal(version as nat);
    let k = text::decimal(known as nat);
    text_laws::law_prefix_and_suffix(head, a + reason);
    assert(head + (a + reason) =~= malformed_text(file, path, reason));
    text_laws::law_prefix_and_suffix(head + a, reason);
    text_laws::law_prefix_and_suffix(head, b + v + c + k);
    assert(head + (b + v + c + k) =~= too_new_text(file, path, version, known));
    text_laws::law_prefix_and_suffix(head + b + v + c, k);
    text_laws::law_occurs(too_new_text(file, path, version, known), v);
    assert((head + b) + v + (c + k) =~= too_new_text(file, path, version, known));
}

} // verus!
