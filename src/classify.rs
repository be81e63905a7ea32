//! The schema classifier: one pass over a table's fields that finds the
//! primary key and separates writable fields from read-only ones.
use vstd::prelude::*;
use crate::field::Field;

verus! {

/// How the primary key of a table was found.
pub enum PrimaryKey<T> {
    /// No field holds the primary key.
    Unset,
    /// The field carries an explicit primary-key annotation.
    FromAttribute(Field<T>),
    /// The field is named `id` and no explicit annotation has claimed the role
    /// so far; a later explicit key demotes it to an ordinary field.
    FromName(Field<T>),
}

/// The one authoring error a table declaration can hold.
#[derive(Debug, Clone, Copy, PartialEq, Eq, Structural)]
pub enum ClassifyError {
    /// A second field is explicitly annotated as the primary key.
    AmbiguousPrimaryKey,
}

/// The declaration of a table type: its visibility, its name and its fields
/// in declaration order.
pub struct TableDecl<V, T> {
    pub visibility: V,
    pub name: String,
    pub fields: Vec<Field<T>>,
}

/// A table being classified: the primary key found so far, and the
/// writable and read-only fields in the order they were placed.
pub struct TableData<V, T> {
    pub visibility: V,
    pub name: String,
    pub primary_key: PrimaryKey<T>,
    pub rw_fields: Vec<Field<T>>,
    pub ro_fields: Vec<Field<T>>,
}

/// The mathematical content of a classification.
pub struct Schema<T> {
    pub primary_key: PrimaryKey<T>,
    pub read_write: Seq<Field<T>>,
    pub read_only: Seq<Field<T>>,
}

/// The name `id`.
pub open spec fn id_name() -> Seq<char> {
    seq!['i', 'd']
}

/// The field is named `id` and may become the primary key by that name.
pub open spec fn adoptable<T>(f: Field<T>) -> bool {
    &&& f.name is Some
    &&& f.name->Some_0@ == id_name()
    &&& !f.spec_is_not_defaulted()
}

/// The field has a name and is explicitly annotated as the primary key.
pub open spec fn explicit_key<T>(f: Field<T>) -> bool {
    f.name is Some && f.spec_is_primary_key()
}

/// The classification before any field is visited.
pub open spec fn empty_schema<T>() -> Schema<T> {
    Schema { primary_key: PrimaryKey::Unset, read_write: Seq::empty(), read_only: Seq::empty() }
}

/// Appends an ordinary field to the sequence that its read-only annotation selects.
pub open spec fn place<T>(s: Schema<T>, f: Field<T>) -> Schema<T> {
    if f.spec_is_read_only() {
        Schema { primary_key: s.primary_key, read_write: s.read_write, read_only: s.read_only.push(f) }
    } else {
        Schema { primary_key: s.primary_key, read_write: s.read_write.push(f), read_only: s.read_only }
    }
}

/// Visiting one field, by the priority rules: adoption of `id` by name,
/// then an explicit primary key (demoting a key found by name, failing on a
/// second explicit one), then an ordinary field. Unnamed fields are skipped.
pub open spec fn step<T>(s: Schema<T>, f: Field<T>) -> Result<Schema<T>, ClassifyError> {
    if f.name is None {
        Ok(s)
    } else if adoptable(f) && s.primary_key is Unset {
        Ok(Schema { primary_key: PrimaryKey::FromName(f), read_write: s.read_write, read_only: s.read_only })
    } else if f.spec_is_primary_key() {
        match s.primary_key {
            PrimaryKey::Unset => Ok(
                Schema { primary_key: PrimaryKey::FromAttribute(f), read_write: s.read_write, read_only: s.read_only },
            ),
            PrimaryKey::FromAttribute(_) => Err(ClassifyError::AmbiguousPrimaryKey),
            PrimaryKey::FromName(old) => {
                let t = place(s, old);
                Ok(Schema { primary_key: PrimaryKey::FromAttribute(f), read_write: t.read_write, read_only: t.read_only })
            },
        }
    } else {
        Ok(place(s, f))
    }
}

/// Visiting `fields` left to right, starting from `s`; the first error ends the pass.
pub open spec fn classify_from<T>(s: Schema<T>, fields: Seq<Field<T>>) -> Result<Schema<T>, ClassifyError>
    decreases fields.len(),
{
    if fields.len() == 0 {
        Ok(s)
    } else {
        match step(s, fields[0]) {
            Ok(t) => classify_from(t, fields.drop_first()),
            Err(e) => Err(e),
        }
    }
}

/// The classification of a table with the given fields.
pub open spec fn classification<T>(fields: Seq<Field<T>>) -> Result<Schema<T>, ClassifyError> {
    classify_from(empty_schema(), fields)
}

impl<T> PrimaryKey<T> {
    pub fn is_none(&self) -> (r: bool)
        ensures
            r == (*self is Unset),
    {
        match self {
            PrimaryKey::Unset => true,
            _ => false,
        }
    }
}

impl<V, T> TableData<V, T> {
    pub open spec fn view(&self) -> Schema<T> {
        Schema { primary_key: self.primary_key, read_write: self.rw_fields@, read_only: self.ro_fields@ }
    }

    /// No writable field is read-only, and every read-only field is.
    pub open spec fn wf(&self) -> bool {
        &&& forall|i: int| 0 <= i < self.rw_fields@.len() ==> !(#[trigger] self.rw_fields@[i]).spec_is_read_only()
        &&& forall|i: int| 0 <= i < self.ro_fields@.len() ==> (#[trigger] self.ro_fields@[i]).spec_is_read_only()
    }

    /// A table with no field visited yet.
    pub fn new(visibility: V, name: String) -> (r: Self)
        ensures
            r@ == empty_schema::<T>(),
            r.wf(),
            r.visibility == visibility,
            r.name == name,
    {
        TableData {
            visibility,
            name,
            primary_key: PrimaryKey::Unset,
            rw_fields: Vec::new(),
            ro_fields: Vec::new(),
        }
    }

    /// Places an ordinary field among the read-only or the writable fields.
    pub fn add_field(&mut self, field: Field<T>)
        requires
            old(self).wf(),
        ensures
            final(self)@ == place(old(self)@, field),
            final(self).wf(),
            final(self).visibility == old(self).visibility,
            final(self).name == old(self).name,
    {
        if field.is_read_only() {
            self.ro_fields.push(field);
        } else {
            self.rw_fields.push(field);
        }
    }

    /// Visits one field. On an error the table is left as it was.
    pub fn visit_field(&mut self, field: Field<T>) -> (r: Result<(), ClassifyError>)
        requires
            old(self).wf(),
        ensures
            final(self).wf(),
            final(self).visibility == old(self).visibility,
            final(self).name == old(self).name,
            match step(old(self)@, field) {
                Ok(s) => r is Ok && final(self)@ == s,
                Err(e) => r == Err::<(), ClassifyError>(e) && final(self)@ == old(self)@,
            },
    {
        let named_id = match &field.name {
            None => return Ok(()),
            Some(ident) => {
                let id = "id".to_owned();
                proof {
                    reveal_strlit("id");
                    assert("id"@ =~= id_name());
                }
                *ident == id
            },
        };
        if named_id && self.primary_key.is_none() && !field.is_not_defaulted() {
            self.primary_key = PrimaryKey::FromName(field);
            Ok(())
        } else if field.is_primary_key() {
            if let PrimaryKey::FromAttribute(_) = &self.primary_key {
                return Err(ClassifyError::AmbiguousPrimaryKey);
            }
            let mut old = PrimaryKey::FromAttribute(field);
            std::mem::swap(&mut self.primary_key, &mut old);
            match old {
                PrimaryKey::FromName(demoted) => self.add_field(demoted),
                _ => {},
            }
            Ok(())
        } else {
            self.add_field(field);
            Ok(())
        }
    }
}

/// Classifies the fields of a table declaration, visiting each once in
/// declaration order.
pub fn classify<V, T>(input: TableDecl<V, T>) -> (r: Result<TableData<V, T>, ClassifyError>)
    ensures
        match classification(input.fields@) {
            Ok(s) => r is Ok && r->Ok_0@ == s && r->Ok_0.wf()
                && r->Ok_0.visibility == input.visibility && r->Ok_0.name == input.name,
            Err(e) => r == Err::<TableData<V, T>, ClassifyError>(e),
        },
{
    let TableDecl { visibility, name, fields } = input;
    let ghost all = fields@;
    let mut fields = fields;
    let mut data = TableData::new(visibility, name);
    while fields.len() > 0
        invariant
            data.wf(),
            data.visibility == input.visibility,
            data.name == input.name,
            classify_from(data@, fields@) == classification(all),
            all == input.fields@,
        decreases fields.len(),
    {
        let field = fields.remove(0);
        match data.visit_field(field) {
            Ok(()) => {},
            Err(e) => return Err(e),
        }
    }
    Ok(data)
}

} // verus!
