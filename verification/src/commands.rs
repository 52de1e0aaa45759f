//! The command layer: validating a registration request, handling an
//! unregister request, and laying the destination menu out in rows.

use vstd::prelude::*;
use crate::registry::{char_len_at_most, spec_unregister, Registry, MAX_DESTINATION_LEN};

verus! {

/// The first character of the text, if there is one.
fn first_char(s: &str) -> (r: Option<char>)
    ensures
        match r {
            Some(c) => s@.len() > 0 && c == s@[0],
            None => s@.len() == 0,
        },
{
    let mut it = s.chars();
    it.next()
}

/// The verdict on a registration request, in the order the checks run.
pub enum RegisterCheck {
    /// No destination name was given at all.
    EmptyName,
    /// The name does not start with the `@` that public handles carry.
    MissingAtSign,
    /// The name is longer than the registry stores.
    NameTooLong,
    /// Another active registration already owns this destination.
    AlreadyRegistered,
    /// The name is acceptable; greet the destination and then register.
    Ready,
}

/// Validate a registration request: the name must be present, start with
/// `@`, fit the registry, and not already be owned. Only `Ready` means the
/// caller should greet the destination and, on success, register it; the
/// other verdicts name exactly what was wrong.
pub fn prepare_registration(registry: &Registry, chat_name: &String) -> (r: RegisterCheck)
    ensures
        match r {
            RegisterCheck::EmptyName => chat_name@.len() == 0,
            RegisterCheck::MissingAtSign => chat_name@.len() > 0 && chat_name@[0] != '@',
            RegisterCheck::NameTooLong => chat_name@.len() > MAX_DESTINATION_LEN && chat_name@[0]
                == '@',
            RegisterCheck::AlreadyRegistered => {
                &&& 0 < chat_name@.len() <= MAX_DESTINATION_LEN
                &&& chat_name@[0] == '@'
                &&& exists|m: int|
                    registry@.dom().contains(m) && (#[trigger] registry@[m]).destination
                        == chat_name@
            },
            RegisterCheck::Ready => {
                &&& 0 < chat_name@.len() <= MAX_DESTINATION_LEN
                &&& chat_name@[0] == '@'
                &&& forall|m: int|
                    registry@.dom().contains(m) ==> (#[trigger] registry@[m]).destination
                        != chat_name@
            },
        },
{
    match first_char(chat_name.as_str()) {
        None => RegisterCheck::EmptyName,
        Some(c) => {
            if c != '@' {
                RegisterCheck::MissingAtSign
            } else if !char_len_at_most(chat_name.as_str(), MAX_DESTINATION_LEN) {
                RegisterCheck::NameTooLong
            } else {
                match registry.lookup_moderator(chat_name) {
                    Some(owner) => {
                        proof {
                            assert(registry@.dom().contains(owner as int)
                                && registry@[owner as int].destination == chat_name@);
                        }
                        RegisterCheck::AlreadyRegistered
                    },
                    None => RegisterCheck::Ready,
                }
            }
        },
    }
}

/// Handle an unregister request: forget the moderator's registration and
/// report which destination was dropped, or `None` if none was on file.
pub fn handle_unregister(registry: &mut Registry, moderator_id: i64) -> (prior: Option<String>)
    ensures
        match prior {
            Some(d) => old(registry)@.dom().contains(moderator_id as int) && d@ == old(
                registry,
            )@[moderator_id as int].destination,
            None => !old(registry)@.dom().contains(moderator_id as int),
        },
        final(registry)@ == spec_unregister(old(registry)@, moderator_id as int),
{
    let prior = registry.lookup_destination(moderator_id);
    registry.unregister(moderator_id);
    prior
}

/// Lay destination names out as menu rows: two per row in the given order,
/// with a final single-name row when the count is odd.
pub fn menu_rows(names: &Vec<String>) -> (rows: Vec<Vec<String>>)
    ensures
        rows@.len() == (names@.len() + 1) / 2,
        forall|i: int|
            0 <= i < rows@.len() ==> (#[trigger] rows@[i])@.len() == (if 2 * i + 2
                <= names@.len() {
                2int
            } else {
                1int
            }),
        forall|i: int, j: int|
            0 <= i < rows@.len() && 0 <= j < rows@[i]@.len() ==> rows@[i]@[j] == names@[2 * i + j],
{
    let n = names.len();
    let mut rows: Vec<Vec<String>> = Vec::new();
    let mut i: usize = 0;
    while i + 1 < n
        invariant
            n == names@.len(),
            i % 2 == 0,
            i <= n,
            rows@.len() * 2 == i,
            forall|k: int|
                0 <= k < rows@.len() ==> (#[trigger] rows@[k])@.len() == 2,
            forall|k: int, j: int|
                0 <= k < rows@.len() && 0 <= j < rows@[k]@.len() ==> rows@[k]@[j] == names@[2 * k
                    + j],
        decreases n - i,
    {
        let mut row: Vec<String> = Vec::new();
        row.push(names[i].clone());
        row.push(names[i + 1].clone());
        rows.push(row);
        i = i + 2;
    }
    if i < n {
        let mut row: Vec<String> = Vec::new();
        row.push(names[i].clone());
        rows.push(row);
    }
    rows
}

} // verus!
