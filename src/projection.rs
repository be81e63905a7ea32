//! The projection synthesizer: the creation type derived from a classified table.
use vstd::prelude::*;
use crate::classify::{classification, classify, ClassifyError, TableData, TableDecl};
use crate::field::Field;

verus! {

/// The synthesized creation type: the table's visibility, the prefixed
/// name, and the writable fields in classification order.
pub struct Projection<V, T> {
    pub visibility: V,
    pub name: String,
    pub fields: Vec<Field<T>>,
}

/// The prefix put before a table's name to name its projection.
pub open spec fn new_prefix() -> Seq<char> {
    seq!['N', 'e', 'w']
}

/// The name of the projection of a table named `name`.
pub open spec fn projection_name(name: Seq<char>) -> Seq<char> {
    new_prefix() + name
}

/// Builds the projection of a classified table.
pub fn new_table<V, T>(data: TableData<V, T>) -> (r: Projection<V, T>)
    ensures
        r.visibility == data.visibility,
        r.name@ == projection_name(data.name@),
        r.fields@ == data.rw_fields@,
{
    let prefix = "New".to_owned();
    proof {
        reveal_strlit("New");
        assert("New"@ =~= new_prefix());
    }
    let TableData { visibility, name, rw_fields, .. } = data;
    let name = prefix.concat(name.as_str());
    Projection { visibility, name, fields: rw_fields }
}

/// Derives the projection of a table declaration, or the error that its
/// fields hold.
pub fn derive_table<V, T>(input: TableDecl<V, T>) -> (r: Result<Projection<V, T>, ClassifyError>)
    ensures
        match classification(input.fields@) {
            Ok(s) => r is Ok && r->Ok_0.fields@ == s.read_write
                && r->Ok_0.name@ == projection_name(input.name@)
                && r->Ok_0.visibility == input.visibility,
            Err(e) => r == Err::<Projection<V, T>, ClassifyError>(e),
        },
{
    match classify(input) {
        Ok(data) => Ok(new_table(data)),
        Err(e) => Err(e),
    }
}

} // verus!
