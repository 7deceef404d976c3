//! Stored records as the database holds them: an insertion-ordered document of
//! named values, with the typed accessors that the record conversions use.
use crate::strmap::{
    has_key, insert_entry, keys_unique, lemma_insert_keeps_unique, lemma_lookup_insert_other,
    lemma_lookup_insert_same, lookup, StrMap,
};
use vstd::prelude::*;

verus! {

/// A 12-byte database object id.
#[derive(Clone, Copy, Debug)]
pub struct ObjectId {
    pub bytes: [u8; 12],
}

/// A value stored in a document. A double is held by its IEEE-754 bit
/// pattern; value kinds that the records never use are `Other`.
pub enum Bson {
    Double(u64),
    String(String),
    Array(Vec<Bson>),
    Document(Document),
    Boolean(bool),
    Null,
    Int32(i32),
    Int64(i64),
    ObjectId(ObjectId),
    Other,
}

/// Why a typed read of a document failed.
#[derive(PartialEq, Eq, Debug, Clone, Copy, Structural)]
pub enum ValueAccessError {
    NotPresent,
    UnexpectedType,
}

/// An insertion-ordered document: field names and their values.
pub struct Document {
    entries: StrMap<Bson>,
}

impl View for Document {
    type V = Seq<(String, Bson)>;

    closed spec fn view(&self) -> Seq<(String, Bson)> {
        self.entries@
    }
}

/// The string stored under `k`.
pub open spec fn get_str_spec(d: Seq<(String, Bson)>, k: Seq<char>) -> Result<String, ValueAccessError> {
    match lookup(d, k) {
        Some(Bson::String(s)) => Ok(s),
        Some(_) => Err(ValueAccessError::UnexpectedType),
        None => Err(ValueAccessError::NotPresent),
    }
}

/// The 64-bit integer stored under `k`.
pub open spec fn get_i64_spec(d: Seq<(String, Bson)>, k: Seq<char>) -> Result<i64, ValueAccessError> {
    match lookup(d, k) {
        Some(Bson::Int64(x)) => Ok(x),
        Some(_) => Err(ValueAccessError::UnexpectedType),
        None => Err(ValueAccessError::NotPresent),
    }
}

/// The 32-bit integer stored under `k`.
pub open spec fn get_i32_spec(d: Seq<(String, Bson)>, k: Seq<char>) -> Result<i32, ValueAccessError> {
    match lookup(d, k) {
        Some(Bson::Int32(x)) => Ok(x),
        Some(_) => Err(ValueAccessError::UnexpectedType),
        None => Err(ValueAccessError::NotPresent),
    }
}

/// The boolean stored under `k`.
pub open spec fn get_bool_spec(d: Seq<(String, Bson)>, k: Seq<char>) -> Result<bool, ValueAccessError> {
    match lookup(d, k) {
        Some(Bson::Boolean(x)) => Ok(x),
        Some(_) => Err(ValueAccessError::UnexpectedType),
        None => Err(ValueAccessError::NotPresent),
    }
}

/// The object id stored under `k`.
pub open spec fn get_object_id_spec(d: Seq<(String, Bson)>, k: Seq<char>) -> Result<ObjectId, ValueAccessError> {
    match lookup(d, k) {
        Some(Bson::ObjectId(x)) => Ok(x),
        Some(_) => Err(ValueAccessError::UnexpectedType),
        None => Err(ValueAccessError::NotPresent),
    }
}

/// The array stored under `k`.
pub open spec fn get_array_spec(d: Seq<(String, Bson)>, k: Seq<char>) -> Result<Vec<Bson>, ValueAccessError> {
    match lookup(d, k) {
        Some(Bson::Array(x)) => Ok(x),
        Some(_) => Err(ValueAccessError::UnexpectedType),
        None => Err(ValueAccessError::NotPresent),
    }
}

/// The double stored under `k`, by its bit pattern.
pub open spec fn get_f64_spec(d: Seq<(String, Bson)>, k: Seq<char>) -> Result<u64, ValueAccessError> {
    match lookup(d, k) {
        Some(Bson::Double(x)) => Ok(x),
        Some(_) => Err(ValueAccessError::UnexpectedType),
        None => Err(ValueAccessError::NotPresent),
    }
}

/// The document stored under `k`.
pub open spec fn get_document_spec(d: Seq<(String, Bson)>, k: Seq<char>) -> Result<Document, ValueAccessError> {
    match lookup(d, k) {
        Some(Bson::Document(x)) => Ok(x),
        Some(_) => Err(ValueAccessError::UnexpectedType),
        None => Err(ValueAccessError::NotPresent),
    }
}

impl Document {
    /// An empty document.
    pub fn new() -> (d: Document)
        ensures
            d@ == Seq::<(String, Bson)>::empty(),
    {
        Document { entries: StrMap::new() }
    }

    /// The number of fields.
    pub fn len(&self) -> (n: usize)
        ensures
            n == self@.len(),
    {
        self.entries.len()
    }

    /// The field at position `i`, in insertion order.
    pub fn entry(&self, i: usize) -> (e: &(String, Bson))
        requires
            i < self@.len(),
        ensures
            *e == self@[i as int],
    {
        self.entries.entry(i)
    }

    /// Sets field `k` to `v`: an existing field keeps its position, a new one goes last.
    pub fn insert(&mut self, k: String, v: Bson)
        ensures
            final(self)@ == insert_entry(old(self)@, k, v),
            keys_unique(old(self)@) ==> keys_unique(final(self)@),
            lookup(final(self)@, k@) == Some(v),
            forall|k2: Seq<char>| k2 != k@ ==> lookup(final(self)@, k2) == lookup(old(self)@, k2),
    {
        proof {
            if keys_unique(self@) {
                lemma_insert_keeps_unique(self@, k, v);
            }
            lemma_lookup_insert_same(self@, k, v);
            assert forall|k2: Seq<char>| k2 != k@ implies lookup(insert_entry(self@, k, v), k2)
                == lookup(self@, k2) by {
                lemma_lookup_insert_other(self@, k, v, k2);
            }
        }
        self.entries.insert(k, v);
    }

    /// The value of field `k`, if present.
    pub fn get(&self, k: &str) -> (r: Option<&Bson>)
        ensures
            match r {
                Some(v) => lookup(self@, k@) == Some(*v),
                None => lookup(self@, k@) is None,
            },
    {
        self.entries.get(k)
    }

    /// Field `k` read as a string.
    pub fn get_str(&self, k: &str) -> (r: Result<&String, ValueAccessError>)
        ensures
            match r {
                Ok(s) => get_str_spec(self@, k@) == Ok::<String, ValueAccessError>(*s),
                Err(e) => get_str_spec(self@, k@) == Err::<String, ValueAccessError>(e),
            },
    {
        match self.get(k) {
            Some(Bson::String(s)) => Ok(s),
            Some(_) => Err(ValueAccessError::UnexpectedType),
            None => Err(ValueAccessError::NotPresent),
        }
    }

    /// Field `k` read as a 64-bit integer.
    pub fn get_i64(&self, k: &str) -> (r: Result<i64, ValueAccessError>)
        ensures
            r == get_i64_spec(self@, k@),
    {
        match self.get(k) {
            Some(Bson::Int64(x)) => Ok(*x),
            Some(_) => Err(ValueAccessError::UnexpectedType),
            None => Err(ValueAccessError::NotPresent),
        }
    }

    /// Field `k` read as a 32-bit integer.
    pub fn get_i32(&self, k: &str) -> (r: Result<i32, ValueAccessError>)
        ensures
            r == get_i32_spec(self@, k@),
    {
        match self.get(k) {
            Some(Bson::Int32(x)) => Ok(*x),
            Some(_) => Err(ValueAccessError::UnexpectedType),
            None => Err(ValueAccessError::NotPresent),
        }
    }

    /// Field `k` read as a boolean.
    pub fn get_bool(&self, k: &str) -> (r: Result<bool, ValueAccessError>)
        ensures
            r == get_bool_spec(self@, k@),
    {
        match self.get(k) {
            Some(Bson::Boolean(x)) => Ok(*x),
            Some(_) => Err(ValueAccessError::UnexpectedType),
            None => Err(ValueAccessError::NotPresent),
        }
    }

    /// Field `k` read as an object id.
    pub fn get_object_id(&self, k: &str) -> (r: Result<ObjectId, ValueAccessError>)
        ensures
            r == get_object_id_spec(self@, k@),
    {
        match self.get(k) {
            Some(Bson::ObjectId(x)) => Ok(*x),
            Some(_) => Err(ValueAccessError::UnexpectedType),
            None => Err(ValueAccessError::NotPresent),
        }
    }

    /// Field `k` read as an array.
    pub fn get_array(&self, k: &str) -> (r: Result<&Vec<Bson>, ValueAccessError>)
        ensures
            match r {
                Ok(a) => get_array_spec(self@, k@) == Ok::<Vec<Bson>, ValueAccessError>(*a),
                Err(e) => get_array_spec(self@, k@) == Err::<Vec<Bson>, ValueAccessError>(e),
            },
    {
        match self.get(k) {
            Some(Bson::Array(a)) => Ok(a),
            Some(_) => Err(ValueAccessError::UnexpectedType),
            None => Err(ValueAccessError::NotPresent),
        }
    }

    /// Field `k` read as a double, by its bit pattern.
    pub fn get_f64(&self, k: &str) -> (r: Result<u64, ValueAccessError>)
        ensures
            r == get_f64_spec(self@, k@),
    {
        match self.get(k) {
            Some(Bson::Double(x)) => Ok(*x),
            Some(_) => Err(ValueAccessError::UnexpectedType),
            None => Err(ValueAccessError::NotPresent),
        }
    }

    /// Field `k` read as a document.
    pub fn get_document(&self, k: &str) -> (r: Result<&Document, ValueAccessError>)
        ensures
            match r {
                Ok(x) => get_document_spec(self@, k@) == Ok::<Document, ValueAccessError>(*x),
                Err(e) => get_document_spec(self@, k@) == Err::<Document, ValueAccessError>(e),
            },
    {
        match self.get(k) {
            Some(Bson::Document(x)) => Ok(x),
            Some(_) => Err(ValueAccessError::UnexpectedType),
            None => Err(ValueAccessError::NotPresent),
        }
    }
}

} // verus!
