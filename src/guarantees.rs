//! What every classification guarantees, proved over the classifier's
//! specification.
use vstd::prelude::*;
use crate::classify::{
    adoptable, classification, classify_from, empty_schema, explicit_key, id_name, place, step,
    ClassifyError, PrimaryKey, Schema,
};
use crate::field::Field;

verus! {

broadcast use vstd::seq_lib::group_seq_properties;

/// Named and writable: the fields that a projection keeps when no
/// primary key is involved.
pub open spec fn writable<T>() -> spec_fn(Field<T>) -> bool {
    |f: Field<T>| f.name is Some && !f.spec_is_read_only()
}

/// Named and read-only.
pub open spec fn read_only_named<T>() -> spec_fn(Field<T>) -> bool {
    |f: Field<T>| f.name is Some && f.spec_is_read_only()
}

/// Fields that have a name.
pub open spec fn named<T>() -> spec_fn(Field<T>) -> bool {
    |f: Field<T>| f.name is Some
}

/// The field would claim the primary key if no key were found yet.
pub open spec fn claims_key<T>(f: Field<T>) -> bool {
    adoptable(f) || explicit_key(f)
}

/// The field at `j` is not adopted by name when visited after `s`.
pub open spec fn not_adopted_at<T>(s: Schema<T>, fields: Seq<Field<T>>, j: int) -> bool {
    ||| !adoptable(fields[j])
    ||| !(s.primary_key is Unset)
    ||| exists|k: int| 0 <= k < j && #[trigger] claims_key(fields[k])
}

/// Every placed field is named and sits in the sequence that its
/// read-only annotation selects; a key field is named.
pub open spec fn schema_wf<T>(s: Schema<T>) -> bool {
    &&& forall|i: int| 0 <= i < s.read_write.len()
        ==> (#[trigger] s.read_write[i]).name is Some && !s.read_write[i].spec_is_read_only()
    &&& forall|i: int| 0 <= i < s.read_only.len()
        ==> (#[trigger] s.read_only[i]).name is Some && s.read_only[i].spec_is_read_only()
    &&& match s.primary_key {
        PrimaryKey::Unset => true,
        PrimaryKey::FromName(f) => f.name is Some,
        PrimaryKey::FromAttribute(f) => f.name is Some,
    }
}

proof fn lemma_split_first<T>(fields: Seq<Field<T>>, p: spec_fn(Field<T>) -> bool)
    requires
        fields.len() > 0,
    ensures
        fields == seq![fields[0]] + fields.drop_first(),
        fields.filter(p) == (if p(fields[0]) { seq![fields[0]] } else { Seq::empty() })
            + fields.drop_first().filter(p),
{
    assert(fields =~= seq![fields[0]] + fields.drop_first());
    fields.drop_first().lemma_filter_prepend(fields[0], p);
}

proof fn lemma_no_claim<T>(s: Schema<T>, fields: Seq<Field<T>>)
    requires
        forall|i: int| 0 <= i < fields.len() ==> !explicit_key(#[trigger] fields[i]),
        !(s.primary_key is Unset) || forall|i: int| 0 <= i < fields.len() ==> !adoptable(#[trigger] fields[i]),
    ensures
        classify_from(s, fields) == Ok::<Schema<T>, ClassifyError>(Schema {
            primary_key: s.primary_key,
            read_write: s.read_write + fields.filter(writable()),
            read_only: s.read_only + fields.filter(read_only_named()),
        }),
    decreases fields.len(),
{
    if fields.len() == 0 {
        assert(s.read_write + fields.filter(writable()) =~= s.read_write);
        assert(s.read_only + fields.filter(read_only_named()) =~= s.read_only);
    } else {
        let f = fields[0];
        let rest = fields.drop_first();
        lemma_split_first(fields, writable());
        lemma_split_first(fields, read_only_named());
        assert(!explicit_key(fields[0]));
        assert(!(s.primary_key is Unset) || !adoptable(fields[0]));
        let t = if f.name is None { s } else { place(s, f) };
        assert(step(s, f) == Ok::<Schema<T>, ClassifyError>(t));
        assert forall|i: int| 0 <= i < rest.len() implies !explicit_key(#[trigger] rest[i]) by {
            assert(rest[i] == fields[i + 1]);
        }
        if s.primary_key is Unset {
            assert forall|i: int| 0 <= i < rest.len() implies !adoptable(#[trigger] rest[i]) by {
                assert(rest[i] == fields[i + 1]);
            }
        }
        lemma_no_claim(t, rest);
        assert(s.read_write + fields.filter(writable()) =~= t.read_write + rest.filter(writable()));
        assert(s.read_only + fields.filter(read_only_named()) =~= t.read_only + rest.filter(read_only_named()));
    }
}

proof fn lemma_key_by_name<T>(s: Schema<T>, fields: Seq<Field<T>>, k: int)
    requires
        s.primary_key is Unset,
        0 <= k < fields.len(),
        adoptable(fields[k]),
        forall|i: int| 0 <= i < k ==> !adoptable(#[trigger] fields[i]),
        forall|i: int| 0 <= i < fields.len() ==> !explicit_key(#[trigger] fields[i]),
    ensures
        classify_from(s, fields) == Ok::<Schema<T>, ClassifyError>(Schema {
            primary_key: PrimaryKey::FromName(fields[k]),
            read_write: s.read_write + fields.remove(k).filter(writable()),
            read_only: s.read_only + fields.remove(k).filter(read_only_named()),
        }),
    decreases k,
{
    let f = fields[0];
    let rest = fields.drop_first();
    assert forall|i: int| 0 <= i < rest.len() implies !explicit_key(#[trigger] rest[i]) by {
        assert(rest[i] == fields[i + 1]);
    }
    assert(!explicit_key(f));
    if k == 0 {
        let t = Schema { primary_key: PrimaryKey::FromName(f), read_write: s.read_write, read_only: s.read_only };
        assert(step(s, f) == Ok::<Schema<T>, ClassifyError>(t));
        assert(fields.remove(0) =~= rest);
        lemma_no_claim(t, rest);
    } else {
        assert(!adoptable(f));
        let t = if f.name is None { s } else { place(s, f) };
        assert(step(s, f) == Ok::<Schema<T>, ClassifyError>(t));
        assert forall|i: int| 0 <= i < k - 1 implies !adoptable(#[trigger] rest[i]) by {
            assert(rest[i] == fields[i + 1]);
        }
        assert(rest[k - 1] == fields[k]);
        lemma_key_by_name(t, rest, k - 1);
        let removed = fields.remove(k);
        assert(removed =~= seq![f] + rest.remove(k - 1));
        rest.remove(k - 1).lemma_filter_prepend(f, writable());
        rest.remove(k - 1).lemma_filter_prepend(f, read_only_named());
        assert(s.read_write + removed.filter(writable()) =~= t.read_write + rest.remove(k - 1).filter(writable()));
        assert(s.read_only + removed.filter(read_only_named())
            =~= t.read_only + rest.remove(k - 1).filter(read_only_named()));
    }
}

/// A table with no field named `id` and no field annotated as the primary
/// key has no primary key, and its writable sequence is exactly its named,
/// writable fields in declaration order.
pub proof fn lemma_no_key_by_default<T>(fields: Seq<Field<T>>)
    requires
        forall|i: int| 0 <= i < fields.len()
            ==> !((#[trigger] fields[i]).name is Some && fields[i].name->Some_0@ == id_name()),
        forall|i: int| 0 <= i < fields.len() ==> !explicit_key(#[trigger] fields[i]),
    ensures
        classification(fields) == Ok::<Schema<T>, ClassifyError>(Schema {
            primary_key: PrimaryKey::Unset,
            read_write: fields.filter(writable()),
            read_only: fields.filter(read_only_named()),
        }),
{
    assert forall|i: int| 0 <= i < fields.len() implies !adoptable(#[trigger] fields[i]) by {}
    lemma_no_claim(empty_schema(), fields);
    assert(Seq::<Field<T>>::empty() + fields.filter(writable()) =~= fields.filter(writable()));
    assert(Seq::<Field<T>>::empty() + fields.filter(read_only_named()) =~= fields.filter(read_only_named()));
}

/// Where no field is annotated as the primary key, the first field named
/// `id` without the not-defaulted annotation becomes the key by name and is
/// left out of both sequences; the other named fields are placed in order.
pub proof fn lemma_implicit_key_by_name<T>(fields: Seq<Field<T>>, k: int)
    requires
        0 <= k < fields.len(),
        adoptable(fields[k]),
        forall|i: int| 0 <= i < k ==> !adoptable(#[trigger] fields[i]),
        forall|i: int| 0 <= i < fields.len() ==> !explicit_key(#[trigger] fields[i]),
    ensures
        classification(fields) == Ok::<Schema<T>, ClassifyError>(Schema {
            primary_key: PrimaryKey::FromName(fields[k]),
            read_write: fields.remove(k).filter(writable()),
            read_only: fields.remove(k).filter(read_only_named()),
        }),
{
    let rest = fields.remove(k);
    lemma_key_by_name(empty_schema(), fields, k);
    assert(Seq::<Field<T>>::empty() + rest.filter(writable()) =~= rest.filter(writable()));
    assert(Seq::<Field<T>>::empty() + rest.filter(read_only_named()) =~= rest.filter(read_only_named()));
}

/// A field named `id` that carries the not-defaulted annotation, and no
/// primary-key annotation, is visited as an ordinary field.
pub proof fn lemma_not_defaulted_id_is_ordinary<T>(s: Schema<T>, f: Field<T>)
    requires
        f.name is Some,
        f.name->Some_0@ == id_name(),
        f.spec_is_not_defaulted(),
        !f.spec_is_primary_key(),
    ensures
        step(s, f) == Ok::<Schema<T>, ClassifyError>(place(s, f)),
{
}

/// A key found by name is demoted by a later explicit primary key: it is
/// placed as an ordinary field at that point, and the annotated field
/// becomes the key.
pub proof fn lemma_explicit_key_demotes_name<T>(s: Schema<T>, old: Field<T>, f: Field<T>)
    requires
        s.primary_key == PrimaryKey::FromName(old),
        explicit_key(f),
    ensures
        step(s, f) == Ok::<Schema<T>, ClassifyError>(Schema {
            primary_key: PrimaryKey::FromAttribute(f),
            read_write: place(s, old).read_write,
            read_only: place(s, old).read_only,
        }),
{
}


proof fn lemma_step_keeps_key<T>(s: Schema<T>, f: Field<T>)
    requires
        step(s, f) is Ok,
    ensures
        !(s.primary_key is Unset) ==> !(step(s, f)->Ok_0.primary_key is Unset),
        claims_key(f) ==> !(step(s, f)->Ok_0.primary_key is Unset),
{
}

proof fn lemma_not_adopted_moves<T>(s: Schema<T>, fields: Seq<Field<T>>, j: int)
    requires
        0 < j < fields.len(),
        not_adopted_at(s, fields, j),
        step(s, fields[0]) is Ok,
    ensures
        not_adopted_at(step(s, fields[0])->Ok_0, fields.drop_first(), j - 1),
{
    let t = step(s, fields[0])->Ok_0;
    let rest = fields.drop_first();
    lemma_step_keeps_key(s, fields[0]);
    assert(rest[j - 1] == fields[j]);
    if !adoptable(fields[j]) || !(s.primary_key is Unset) {
    } else {
        let k = choose|k: int| 0 <= k < j && #[trigger] claims_key(fields[k]);
        if k > 0 {
            assert(rest[k - 1] == fields[k]);
            assert(claims_key(rest[k - 1]));
        }
    }
}

proof fn lemma_attribute_key_stays<T>(s: Schema<T>, fields: Seq<Field<T>>)
    requires
        s.primary_key is FromAttribute,
    ensures
        classify_from(s, fields) is Ok ==> classify_from(s, fields)->Ok_0.primary_key == s.primary_key,
        (exists|j: int| 0 <= j < fields.len() && #[trigger] explicit_key(fields[j]))
            ==> classify_from(s, fields) is Err,
    decreases fields.len(),
{
    if fields.len() > 0 {
        let rest = fields.drop_first();
        if step(s, fields[0]) is Ok {
            let t = step(s, fields[0])->Ok_0;
            assert(t.primary_key == s.primary_key);
            lemma_attribute_key_stays(t, rest);
            if exists|j: int| 0 <= j < fields.len() && #[trigger] explicit_key(fields[j]) {
                let j = choose|j: int| 0 <= j < fields.len() && #[trigger] explicit_key(fields[j]);
                assert(j != 0);
                assert(rest[j - 1] == fields[j]);
                assert(explicit_key(rest[j - 1]));
            }
        }
    }
}

proof fn lemma_explicit_key_from<T>(s: Schema<T>, fields: Seq<Field<T>>, j: int)
    requires
        0 <= j < fields.len(),
        explicit_key(fields[j]),
        not_adopted_at(s, fields, j),
    ensures
        classify_from(s, fields) is Ok
            ==> classify_from(s, fields)->Ok_0.primary_key == PrimaryKey::FromAttribute(fields[j]),
        (exists|i: int| j < i < fields.len() && #[trigger] explicit_key(fields[i]))
            ==> classify_from(s, fields) is Err,
    decreases j,
{
    let rest = fields.drop_first();
    if step(s, fields[0]) is Ok {
        let t = step(s, fields[0])->Ok_0;
        if j == 0 {
            assert(t.primary_key == PrimaryKey::FromAttribute(fields[0]));
            lemma_attribute_key_stays(t, rest);
            if exists|i: int| j < i < fields.len() && #[trigger] explicit_key(fields[i]) {
                let i = choose|i: int| j < i < fields.len() && #[trigger] explicit_key(fields[i]);
                assert(rest[i - 1] == fields[i]);
                assert(explicit_key(rest[i - 1]));
            }
        } else {
            lemma_not_adopted_moves(s, fields, j);
            assert(rest[j - 1] == fields[j]);
            lemma_explicit_key_from(t, rest, j - 1);
            if exists|i: int| j < i < fields.len() && #[trigger] explicit_key(fields[i]) {
                let i = choose|i: int| j < i < fields.len() && #[trigger] explicit_key(fields[i]);
                assert(rest[i - 1] == fields[i]);
                assert(explicit_key(rest[i - 1]));
            }
        }
    }
}

/// A field annotated as the primary key, and not taken as the key by its
/// name `id` first, is the key of every successful classification.
pub proof fn lemma_explicit_key_wins<T>(fields: Seq<Field<T>>, j: int)
    requires
        0 <= j < fields.len(),
        explicit_key(fields[j]),
        !adoptable(fields[j]) || exists|k: int| 0 <= k < j && #[trigger] claims_key(fields[k]),
        classification(fields) is Ok,
    ensures
        classification(fields)->Ok_0.primary_key == PrimaryKey::FromAttribute(fields[j]),
{
    lemma_explicit_key_from(empty_schema(), fields, j);
}

/// Two fields annotated as the primary key make the classification fail,
/// unless the first of them is taken as the key by its name `id`.
pub proof fn lemma_duplicate_explicit_key_fails<T>(fields: Seq<Field<T>>, i: int, j: int)
    requires
        0 <= i < j < fields.len(),
        explicit_key(fields[i]),
        explicit_key(fields[j]),
        !adoptable(fields[i]) || exists|k: int| 0 <= k < i && #[trigger] claims_key(fields[k]),
    ensures
        classification(fields) == Err::<Schema<T>, ClassifyError>(ClassifyError::AmbiguousPrimaryKey),
{
    lemma_explicit_key_from(empty_schema(), fields, i);
    assert(i < j < fields.len() && explicit_key(fields[j]));
    let r = classification(fields);
    assert(r is Err);
    assert(r->Err_0 == ClassifyError::AmbiguousPrimaryKey);
}


proof fn lemma_wf_from<T>(s: Schema<T>, fields: Seq<Field<T>>)
    requires
        schema_wf(s),
        classify_from(s, fields) is Ok,
    ensures
        schema_wf(classify_from(s, fields)->Ok_0),
    decreases fields.len(),
{
    if fields.len() > 0 {
        let t = step(s, fields[0])->Ok_0;
        lemma_wf_from(t, fields.drop_first());
    }
}

/// A successful classification places no read-only field among the
/// writable ones, whatever its primary key, and no unnamed field anywhere.
pub proof fn lemma_read_only_never_projected<T>(fields: Seq<Field<T>>)
    requires
        classification(fields) is Ok,
    ensures
        forall|i: int| 0 <= i < classification(fields)->Ok_0.read_write.len()
            ==> !(#[trigger] classification(fields)->Ok_0.read_write[i]).spec_is_read_only(),
        forall|i: int| 0 <= i < classification(fields)->Ok_0.read_write.len()
            ==> (#[trigger] classification(fields)->Ok_0.read_write[i]).name is Some,
        forall|i: int| 0 <= i < classification(fields)->Ok_0.read_only.len()
            ==> (#[trigger] classification(fields)->Ok_0.read_only[i]).name is Some,
{
    lemma_wf_from(empty_schema(), fields);
}

proof fn lemma_unnamed_skipped<T>(s: Schema<T>, fields: Seq<Field<T>>)
    ensures
        classify_from(s, fields) == classify_from(s, fields.filter(named())),
    decreases fields.len(),
{
    if fields.len() > 0 {
        let f = fields[0];
        let rest = fields.drop_first();
        lemma_split_first(fields, named());
        if f.name is None {
            assert(fields.filter(named()) =~= rest.filter(named()));
            lemma_unnamed_skipped(s, rest);
        } else {
            let kept = fields.filter(named());
            assert(kept =~= seq![f] + rest.filter(named()));
            assert(kept[0] == f);
            assert(kept.drop_first() =~= rest.filter(named()));
            match step(s, f) {
                Ok(t) => lemma_unnamed_skipped(t, rest),
                Err(_) => {},
            }
        }
    } else {
        assert(fields.filter(named()) =~= fields);
    }
}

/// Unnamed fields take no part in a classification: it is the same, error
/// included, as that of the named fields alone.
pub proof fn lemma_anonymous_fields_dropped<T>(fields: Seq<Field<T>>)
    ensures
        classification(fields) == classification(fields.filter(named())),
{
    lemma_unnamed_skipped(empty_schema(), fields);
}

/// Classification depends on the fields alone: equal declarations give
/// equal results, field order and membership included.
pub proof fn lemma_classification_deterministic<T>(a: Seq<Field<T>>, b: Seq<Field<T>>)
    requires
        a == b,
    ensures
        classification(a) == classification(b),
{
}


proof fn lemma_writable_grows<T>(s: Schema<T>, fields: Seq<Field<T>>)
    requires
        forall|i: int| 0 <= i < fields.len() ==> !explicit_key(#[trigger] fields[i]),
    ensures
        classify_from(s, fields) is Ok,
        s.read_write.len() <= classify_from(s, fields)->Ok_0.read_write.len(),
        forall|i: int| 0 <= i < s.read_write.len()
            ==> #[trigger] classify_from(s, fields)->Ok_0.read_write[i] == s.read_write[i],
    decreases fields.len(),
{
    if fields.len() > 0 {
        let rest = fields.drop_first();
        assert(!explicit_key(fields[0]));
        assert forall|i: int| 0 <= i < rest.len() implies !explicit_key(#[trigger] rest[i]) by {
            assert(rest[i] == fields[i + 1]);
        }
        let t = step(s, fields[0])->Ok_0;
        lemma_writable_grows(t, rest);
        assert forall|i: int| 0 <= i < s.read_write.len()
            implies #[trigger] classify_from(s, fields)->Ok_0.read_write[i] == s.read_write[i] by {
            assert(t.read_write[i] == s.read_write[i]);
        }
    }
}

proof fn lemma_ordinary_projected<T>(s: Schema<T>, fields: Seq<Field<T>>, j: int)
    requires
        0 <= j < fields.len(),
        writable::<T>()(fields[j]),
        !adoptable(fields[j]),
        forall|i: int| 0 <= i < fields.len() ==> !explicit_key(#[trigger] fields[i]),
    ensures
        classify_from(s, fields) is Ok,
        classify_from(s, fields)->Ok_0.read_write.contains(fields[j]),
    decreases j,
{
    let rest = fields.drop_first();
    assert(!explicit_key(fields[0]));
    assert forall|i: int| 0 <= i < rest.len() implies !explicit_key(#[trigger] rest[i]) by {
        assert(rest[i] == fields[i + 1]);
    }
    let t = step(s, fields[0])->Ok_0;
    if j == 0 {
        assert(t.read_write == s.read_write.push(fields[0]));
        lemma_writable_grows(t, rest);
        let r = classify_from(s, fields)->Ok_0.read_write;
        assert(r[s.read_write.len() as int] == t.read_write[s.read_write.len() as int]);
    } else {
        assert(rest[j - 1] == fields[j]);
        lemma_ordinary_projected(t, rest, j - 1);
    }
}

/// Where no field is annotated as the primary key, a writable field named
/// `id` that carries the not-defaulted annotation is kept in the projection.
pub proof fn lemma_suppressed_id_projected<T>(fields: Seq<Field<T>>, j: int)
    requires
        0 <= j < fields.len(),
        fields[j].name is Some,
        fields[j].name->Some_0@ == id_name(),
        fields[j].spec_is_not_defaulted(),
        !fields[j].spec_is_read_only(),
        forall|i: int| 0 <= i < fields.len() ==> !explicit_key(#[trigger] fields[i]),
    ensures
        classification(fields) is Ok,
        classification(fields)->Ok_0.read_write.contains(fields[j]),
{
    lemma_ordinary_projected(empty_schema(), fields, j);
}

} // verus!
