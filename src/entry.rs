use vstd::prelude::*;

use crate::error::VmError;
use crate::program::{builtin_named, same_text, Ins};

verus! {

/// A field value of a program entry, as far as loading reads it.
#[derive(Debug, Clone, PartialEq)]
pub enum Json {
    Null,
    Bool(bool),
    /// A number with an exact 64-bit integer value.
    Int(i64),
    Text(String),
    /// Any other value: a fraction, a number out of range, an array, an object.
    Other,
}

/// One entry of a program: the fields of an object, in order.
#[derive(Debug, Clone, PartialEq)]
pub struct Entry {
    pub fields: Vec<(String, Json)>,
}

/// The value of the first field named `key` at or after position `i`.
pub open spec fn find_from(fields: Seq<(String, Json)>, key: Seq<char>, i: int) -> Option<Json>
    decreases fields.len() - i,
{
    if i < 0 || i >= fields.len() {
        None
    } else if fields[i].0@ == key {
        Some(fields[i].1)
    } else {
        find_from(fields, key, i + 1)
    }
}

/// The value of the field named `key`.
pub open spec fn field(e: Entry, key: Seq<char>) -> Option<Json> {
    find_from(e.fields@, key, 0)
}

impl Entry {
    /// Looks up the field named `key`.
    pub fn get(&self, key: &str) -> (r: Option<&Json>)
        ensures
            match r {
                Some(j) => field(*self, key@) == Some(*j),
                None => field(*self, key@) is None,
            },
    {
        let mut i: usize = 0;
        while i < self.fields.len()
            invariant
                i <= self.fields@.len(),
                field(*self, key@) == find_from(self.fields@, key@, i as int),
            decreases self.fields@.len() - i,
        {
            if same_text(self.fields[i].0.as_str(), key) {
                return Some(&self.fields[i].1);
            }
            i = i + 1;
        }
        None
    }
}

/// Why an entry cannot be loaded.
pub ghost enum LoadFault {
    /// The invoked name is not known.
    Unknown(Seq<char>),
    /// A field is missing or of the wrong kind.
    Malformed,
}

/// Whether a loader error is the one a fault names.
pub open spec fn fault_matches(e: VmError, f: LoadFault) -> bool {
    match (e, f) {
        (VmError::UnknownFunction(s), LoadFault::Unknown(n)) => s@ == n,
        (VmError::MalformedEntry, LoadFault::Malformed) => true,
        _ => false,
    }
}

/// The first position at or after `i` of a foreign function named `name`.
pub open spec fn registry_find(registry: Seq<Seq<char>>, name: Seq<char>, i: int) -> Option<nat>
    decreases registry.len() - i,
{
    if i < 0 || i >= registry.len() {
        None
    } else if registry[i] == name {
        Some(i as nat)
    } else {
        registry_find(registry, name, i + 1)
    }
}

/// What an invoked name loads as: a built-in, else the first foreign
/// function of that name, else nothing for a name that starts with `_`.
pub open spec fn resolve(name: Seq<char>, registry: Seq<Seq<char>>) -> Result<Option<Ins>, LoadFault> {
    match builtin_named(name) {
        Some(i) => Ok(Some(i)),
        None => match registry_find(registry, name, 0) {
            Some(k) => Ok(Some(Ins::Foreign(k))),
            None => if name.len() > 0 && name[0] == '_' {
                Ok(None)
            } else {
                Err(LoadFault::Unknown(name))
            },
        },
    }
}

/// The instruction an entry loads as, if any, by its `type` field.
pub open spec fn entry_instr(e: Entry, registry: Seq<Seq<char>>) -> Result<Option<Ins>, LoadFault> {
    match field(e, "type"@) {
        Some(Json::Text(t)) => if t@ == "push-number-instruction"@ {
            match field(e, "value"@) {
                Some(Json::Int(x)) => Ok(Some(Ins::PushNumber(x))),
                _ => Err(LoadFault::Malformed),
            }
        } else if t@ == "push-string-instruction"@ {
            match field(e, "value"@) {
                Some(Json::Text(x)) => Ok(Some(Ins::PushString(x@))),
                _ => Err(LoadFault::Malformed),
            }
        } else if t@ == "invoke-function-instruction"@ {
            match field(e, "functionName"@) {
                Some(Json::Text(x)) => resolve(x@, registry),
                _ => Err(LoadFault::Malformed),
            }
        } else {
            Ok(None)
        },
        _ => Ok(None),
    }
}

/// The label an entry defines, if any.
pub open spec fn entry_label(e: Entry) -> Result<Option<Seq<char>>, LoadFault> {
    match field(e, "label"@) {
        None => Ok(None),
        Some(Json::Text(l)) => Ok(Some(l@)),
        Some(_) => Err(LoadFault::Malformed),
    }
}

/// The program and labels after loading the entries from position `i` on:
/// each entry appends its instruction, if any, then its label, which
/// records the index of the last instruction loaded so far (`-1` when there
/// is none yet).
pub open spec fn load_from(
    entries: Seq<Entry>,
    i: int,
    registry: Seq<Seq<char>>,
    prog: Seq<Ins>,
    labels: Seq<(Seq<char>, int)>,
) -> Result<(Seq<Ins>, Seq<(Seq<char>, int)>), LoadFault>
    decreases entries.len() - i,
{
    if i < 0 || i >= entries.len() {
        Ok((prog, labels))
    } else {
        match entry_instr(entries[i], registry) {
            Err(f) => Err(f),
            Ok(o) => {
                let prog2 = match o {
                    Some(x) => prog.push(x),
                    None => prog,
                };
                match entry_label(entries[i]) {
                    Err(f) => Err(f),
                    Ok(Some(l)) => load_from(entries, i + 1, registry, prog2, labels.push((l, prog2.len() - 1))),
                    Ok(None) => load_from(entries, i + 1, registry, prog2, labels),
                }
            },
        }
    }
}

} // verus!
