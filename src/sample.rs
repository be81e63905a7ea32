//! A small table and its projection, derived end to end.
use vstd::prelude::*;
use crate::classify::{classification, classify_from, empty_schema, id_name, step, ClassifyError, TableDecl};
use crate::field::Field;
use crate::projection::{derive_table, projection_name, Projection};

verus! {

/// Derives the projection of `struct TestTable { pub field: i32 }`: a type
/// `NewTestTable` with that one field. The field's declaration is carried
/// as its source text.
pub fn it_works() -> (r: Projection<String, String>)
    ensures
        r.name@ == projection_name("TestTable"@),
        r.visibility@ == Seq::<char>::empty(),
        r.fields@.len() == 1,
        r.fields@[0].name is Some,
        r.fields@[0].name->Some_0@ == "field"@,
        r.fields@[0].decl@ == "pub field: i32"@,
{
    let field = Field { name: Some("field".to_owned()), annotations: Vec::new(), decl: "pub field: i32".to_owned() };
    let mut fields = Vec::new();
    fields.push(field);
    let input = TableDecl { visibility: String::new(), name: "TestTable".to_owned(), fields };
    proof {
        reveal_strlit("field");
        let f = input.fields@[0];
        assert(f.name->Some_0@ != id_name());
        assert(!f.spec_is_primary_key());
        assert(!f.spec_is_read_only());
        let s = step(empty_schema(), f)->Ok_0;
        assert(s.read_write =~= seq![f]);
        assert(input.fields@.drop_first() =~= Seq::<Field<String>>::empty());
        assert(classify_from(s, input.fields@.drop_first()) == Ok::<_, ClassifyError>(s));
        assert(classification(input.fields@) == Ok::<_, ClassifyError>(s));
    }
    match derive_table(input) {
        Ok(p) => p,
        Err(_) => {
            proof {
                assert(false);
            }
            Projection { visibility: String::new(), name: String::new(), fields: Vec::new() }
        },
    }
}

} // verus!
