//! The name of the active network connection, from NetworkManager's answers.
use vstd::prelude::*;
use crate::text::same_text;

verus! {

/// NetworkManager's primary connection path names a connection: it is not `/`.
pub open spec fn names_connection(path: Seq<char>) -> bool {
    path != "/"@
}

/// Whether the primary connection path that NetworkManager reports names a connection
/// whose name is then to be asked for.
pub fn has_primary_connection(path: &str) -> (r: bool)
    ensures
        r == names_connection(path@),
{
    !same_text(path, "/")
}

/// The network name shown: the connection's name when one was obtained, else `Offline`.
pub fn get_network_name(connection_id: Option<String>) -> (r: String)
    ensures
        connection_id matches Some(id) ==> r == id,
        connection_id is None ==> r@ == "Offline"@,
{
    match connection_id {
        Some(id) => id,
        None => String::from_str("Offline"),
    }
}

} // verus!
