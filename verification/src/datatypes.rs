//! Column descriptors: type tags, fields and schemas.
//!
//! A `Schema` is an ordered collection of `Field`s, each a (name, type,
//! nullability) triple.  Lookup is by name; `try_merge` combines schemas,
//! succeeding idempotently on identical duplicates and failing on true
//! conflicts.

use vstd::prelude::*;
use crate::error::{ErrView, PolarsError};

verus! {

/// Closed set of column/scalar type tags.
#[derive(Clone, Copy, PartialEq, Eq, Structural, Debug)]
pub enum DataType {
    Boolean,
    Utf8,
    UInt8,
    UInt16,
    UInt32,
    UInt64,
    Int8,
    Int16,
    Int32,
    Int64,
    Float32,
    Float64,
}

/// Ghost descriptor of a field: what contracts say about columns.
pub ghost struct FieldView {
    pub name: Seq<char>,
    pub dtype: DataType,
    pub nullable: bool,
}

/// A column descriptor: name, type tag and nullability.
#[derive(Debug)]
pub struct Field {
    name: String,
    data_type: DataType,
    nullable: bool,
}

impl View for Field {
    type V = FieldView;

    closed spec fn view(&self) -> FieldView {
        FieldView { name: self.name@, dtype: self.data_type, nullable: self.nullable }
    }
}

impl Clone for Field {
    fn clone(&self) -> (r: Field)
        ensures
            r == self,
    {
        Field { name: self.name.clone(), data_type: self.data_type, nullable: self.nullable }
    }
}

impl Field {
    pub fn new(name: &str, data_type: DataType, nullable: bool) -> (f: Field)
        ensures
            f@ == (FieldView { name: name@, dtype: data_type, nullable }),
    {
        Field { name: name.to_owned(), data_type, nullable }
    }

    pub fn name(&self) -> (r: &String)
        ensures
            r@ == self@.name,
    {
        &self.name
    }

    pub fn data_type(&self) -> (r: DataType)
        ensures
            r == self@.dtype,
    {
        self.data_type
    }

    pub fn is_nullable(&self) -> (r: bool)
        ensures
            r == self@.nullable,
    {
        self.nullable
    }

    /// Full-identity comparison: name, type and nullability.
    pub fn same(&self, other: &Field) -> (r: bool)
        ensures
            r == (self@ == other@),
    {
        let r = self.name == other.name && self.data_type == other.data_type
            && self.nullable == other.nullable;
        proof {
            if r {
                assert(self@ == other@);
            }
        }
        r
    }
}

/// The views of a sequence of fields, in order.
pub open spec fn fields_view(fs: Seq<Field>) -> Seq<FieldView> {
    Seq::new(fs.len(), |i: int| fs[i]@)
}

/// Whether some field in `fs` is named `name`.
pub open spec fn has_name(fs: Seq<FieldView>, name: Seq<char>) -> bool {
    exists|i: int| 0 <= i < fs.len() && fs[i].name == name
}

/// The first field in `fs` named `name` (arbitrary when there is none).
pub open spec fn first_with_name(fs: Seq<FieldView>, name: Seq<char>) -> FieldView
    decreases fs.len(),
{
    if fs.len() == 0 {
        arbitrary()
    } else if fs[0].name == name {
        fs[0]
    } else {
        first_with_name(fs.drop_first(), name)
    }
}

/// Whether a field with exactly this identity occurs in `fs`.
pub open spec fn contains_field(fs: Seq<FieldView>, f: FieldView) -> bool {
    exists|i: int| 0 <= i < fs.len() && fs[i] == f
}

/// All field names in `fs` are pairwise distinct.
pub open spec fn names_unique(fs: Seq<FieldView>) -> bool {
    forall|i: int, j: int| 0 <= i < j < fs.len() ==> fs[i].name != fs[j].name
}

/// If the fields before index `i` are not named `name` and field `i` is,
/// then field `i` is the first field with that name.
pub proof fn lemma_first_with_name(fs: Seq<FieldView>, name: Seq<char>, i: int)
    requires
        0 <= i < fs.len(),
        fs[i].name == name,
        forall|k: int| 0 <= k < i ==> fs[k].name != name,
    ensures
        has_name(fs, name),
        first_with_name(fs, name) == fs[i],
    decreases i,
{
    if i == 0 {
    } else {
        lemma_first_with_name(fs.drop_first(), name, i - 1);
    }
}

/// One step of schema merging: fold the fields `fs` into `acc`, left to
/// right.  A field whose exact identity is already present is dropped (one
/// copy remains); a field whose name is present with a different identity is
/// a conflict, reported by name.
pub open spec fn merge_into(acc: Seq<FieldView>, fs: Seq<FieldView>) -> Result<
    Seq<FieldView>,
    Seq<char>,
>
    decreases fs.len(),
{
    if fs.len() == 0 {
        Ok(acc)
    } else {
        let f = fs[0];
        if has_name(acc, f.name) {
            if first_with_name(acc, f.name) == f {
                merge_into(acc, fs.drop_first())
            } else {
                Err(f.name)
            }
        } else {
            merge_into(acc.push(f), fs.drop_first())
        }
    }
}

/// Merge a sequence of schemas into `acc`, in order.
pub open spec fn merge_all(acc: Seq<FieldView>, schemas: Seq<Seq<FieldView>>) -> Result<
    Seq<FieldView>,
    Seq<char>,
>
    decreases schemas.len(),
{
    if schemas.len() == 0 {
        Ok(acc)
    } else {
        match merge_into(acc, schemas[0]) {
            Ok(acc2) => merge_all(acc2, schemas.drop_first()),
            Err(n) => Err(n),
        }
    }
}

/// The views of a sequence of schemas, in order.
pub open spec fn schemas_view(ss: Seq<Schema>) -> Seq<Seq<FieldView>> {
    Seq::new(ss.len(), |i: int| ss[i]@)
}

/// Appending a field only adds its own name.
pub proof fn lemma_has_name_push(acc: Seq<FieldView>, f: FieldView, n: Seq<char>)
    ensures
        has_name(acc.push(f), n) == (has_name(acc, n) || f.name == n),
{
    if has_name(acc, n) {
        let i = choose|i: int| 0 <= i < acc.len() && acc[i].name == n;
        assert(acc.push(f)[i].name == n);
    }
    if f.name == n {
        assert(acc.push(f)[acc.len() as int].name == n);
    }
    if has_name(acc.push(f), n) {
        let i = choose|i: int| 0 <= i < acc.push(f).len() && acc.push(f)[i].name == n;
        if i < acc.len() {
            assert(acc[i].name == n);
        }
    }
}

/// Merging fields whose names are pairwise distinct and absent from `acc`
/// appends them all, in order.
pub proof fn lemma_merge_into_fresh(acc: Seq<FieldView>, fs: Seq<FieldView>)
    requires
        names_unique(fs),
        forall|i: int| 0 <= i < fs.len() ==> !has_name(acc, #[trigger] fs[i].name),
    ensures
        merge_into(acc, fs) == Ok::<Seq<FieldView>, Seq<char>>(acc + fs),
    decreases fs.len(),
{
    if fs.len() == 0 {
        assert(acc + fs =~= acc);
    } else {
        let f = fs[0];
        let acc2 = acc.push(f);
        let rest = fs.drop_first();
        assert(forall|i: int, j: int| 0 <= i < j < rest.len() ==> rest[i].name != rest[j].name);
        assert forall|i: int| 0 <= i < rest.len() implies !has_name(acc2, #[trigger] rest[i].name) by {
            assert(rest[i] == fs[i + 1]);
            assert(!has_name(acc, rest[i].name));
            assert(f.name != rest[i].name);
            lemma_has_name_push(acc, f, rest[i].name);
        };
        lemma_merge_into_fresh(acc2, rest);
        assert(acc2 + rest =~= acc + fs);
    }
}

/// Appending a field does not change the first field of an already present
/// name.
proof fn lemma_first_with_name_push(acc: Seq<FieldView>, f: FieldView, n: Seq<char>)
    requires
        has_name(acc, n),
    ensures
        first_with_name(acc.push(f), n) == first_with_name(acc, n),
    decreases acc.len(),
{
    if acc[0].name == n {
        assert(acc.push(f)[0] == acc[0]);
    } else {
        let i = choose|i: int| 0 <= i < acc.len() && acc[i].name == n;
        assert(acc.drop_first()[i - 1].name == n);
        assert(has_name(acc.drop_first(), n));
        lemma_first_with_name_push(acc.drop_first(), f, n);
        assert(acc.push(f).drop_first() =~= acc.drop_first().push(f));
    }
}

/// The fields of `fs` whose names `acc` does not carry, in order.
pub open spec fn fresh_fields(acc: Seq<FieldView>, fs: Seq<FieldView>) -> Seq<FieldView>
    decreases fs.len(),
{
    if fs.len() == 0 {
        Seq::empty()
    } else if has_name(acc, fs[0].name) {
        fresh_fields(acc, fs.drop_first())
    } else {
        seq![fs[0]] + fresh_fields(acc, fs.drop_first())
    }
}

/// Appending a field whose name `fs` does not carry leaves freshness
/// unchanged.
proof fn lemma_fresh_fields_push(acc: Seq<FieldView>, f: FieldView, fs: Seq<FieldView>)
    requires
        forall|i: int| 0 <= i < fs.len() ==> (#[trigger] fs[i]).name != f.name,
    ensures
        fresh_fields(acc.push(f), fs) == fresh_fields(acc, fs),
    decreases fs.len(),
{
    if fs.len() == 0 {
    } else {
        lemma_has_name_push(acc, f, fs[0].name);
        assert(forall|i: int| 0 <= i < fs.drop_first().len() ==> #[trigger] fs.drop_first()[i]
            == fs[i + 1]);
        lemma_fresh_fields_push(acc, f, fs.drop_first());
    }
}

/// Merging fields that are each either identical to the first field of
/// their name in `acc`, or fresh, appends exactly the fresh ones: a shared
/// identical duplicate is kept once.
pub proof fn lemma_merge_into_shared(acc: Seq<FieldView>, fs: Seq<FieldView>)
    requires
        names_unique(fs),
        forall|i: int| 0 <= i < fs.len() && has_name(acc, (#[trigger] fs[i]).name)
            ==> first_with_name(acc, fs[i].name) == fs[i],
    ensures
        merge_into(acc, fs) == Ok::<Seq<FieldView>, Seq<char>>(acc + fresh_fields(acc, fs)),
    decreases fs.len(),
{
    if fs.len() == 0 {
        assert(acc + fresh_fields(acc, fs) =~= acc);
    } else {
        let f = fs[0];
        let rest = fs.drop_first();
        assert(forall|i: int| 0 <= i < rest.len() ==> #[trigger] rest[i] == fs[i + 1]);
        if has_name(acc, f.name) {
            assert(first_with_name(acc, f.name) == f);
            lemma_merge_into_shared(acc, rest);
        } else {
            let acc2 = acc.push(f);
            assert forall|i: int| 0 <= i < rest.len() && has_name(acc2, (#[trigger] rest[i]).name)
                implies first_with_name(acc2, rest[i].name) == rest[i] by {
                assert(rest[i].name != f.name);
                lemma_has_name_push(acc, f, rest[i].name);
                assert(has_name(acc, rest[i].name));
                lemma_first_with_name_push(acc, f, rest[i].name);
            };
            lemma_merge_into_shared(acc2, rest);
            assert forall|i: int| 0 <= i < rest.len() implies (#[trigger] rest[i]).name
                != f.name by {};
            lemma_fresh_fields_push(acc, f, rest);
            assert(acc2 + fresh_fields(acc2, rest) =~= acc + (seq![f] + fresh_fields(acc, rest)));
        }
    }
}

/// Merging two schemas that share some identical fields keeps one copy of
/// each shared field: the result is `s1` followed by exactly those fields
/// of `s2` whose names `s1` does not carry.
pub proof fn lemma_merge_shared_union(s1: Seq<FieldView>, s2: Seq<FieldView>)
    requires
        names_unique(s1),
        names_unique(s2),
        forall|i: int| 0 <= i < s2.len() && has_name(s1, (#[trigger] s2[i]).name)
            ==> first_with_name(s1, s2[i].name) == s2[i],
    ensures
        merge_all(Seq::empty(), seq![s1, s2]) == Ok::<Seq<FieldView>, Seq<char>>(
            s1 + fresh_fields(s1, s2),
        ),
{
    assert(forall|i: int| 0 <= i < s1.len() ==> !has_name(Seq::empty(), #[trigger] s1[i].name));
    lemma_merge_into_fresh(Seq::empty(), s1);
    assert(Seq::<FieldView>::empty() + s1 =~= s1);
    lemma_merge_into_shared(s1, s2);
    let ss = seq![s1, s2];
    assert(ss.drop_first() =~= seq![s2]);
    assert(seq![s2].drop_first() =~= Seq::<Seq<FieldView>>::empty());
    assert(merge_all(s1 + fresh_fields(s1, s2), Seq::empty()) == Ok::<Seq<FieldView>, Seq<char>>(
        s1 + fresh_fields(s1, s2),
    ));
    assert(merge_all(s1, seq![s2]) == Ok::<Seq<FieldView>, Seq<char>>(s1 + fresh_fields(s1, s2)));
}

/// Merging fields that are each already present, identically and as the
/// first of their name, changes nothing.
pub proof fn lemma_merge_into_dup(acc: Seq<FieldView>, fs: Seq<FieldView>)
    requires
        forall|i: int| 0 <= i < fs.len() ==> has_name(acc, #[trigger] fs[i].name)
            && first_with_name(acc, fs[i].name) == fs[i],
    ensures
        merge_into(acc, fs) == Ok::<Seq<FieldView>, Seq<char>>(acc),
    decreases fs.len(),
{
    if fs.len() == 0 {
    } else {
        let rest = fs.drop_first();
        assert(forall|i: int| 0 <= i < rest.len() ==> rest[i] == fs[i + 1]);
        lemma_merge_into_dup(acc, rest);
    }
}

/// A merge result carries pairwise distinct names whenever the accumulator
/// does: merging never introduces a duplicate name.
pub proof fn lemma_merge_into_unique(acc: Seq<FieldView>, fs: Seq<FieldView>)
    requires
        names_unique(acc),
        merge_into(acc, fs) is Ok,
    ensures
        names_unique(merge_into(acc, fs)->Ok_0),
    decreases fs.len(),
{
    if fs.len() == 0 {
    } else {
        let f = fs[0];
        let rest = fs.drop_first();
        if has_name(acc, f.name) {
            lemma_merge_into_unique(acc, rest);
        } else {
            assert forall|i: int, j: int| 0 <= i < j < acc.push(f).len() implies acc.push(
                f,
            )[i].name != acc.push(f)[j].name by {
                if j < acc.len() {
                } else {
                    assert(acc.push(f)[i] == acc[i]);
                    if acc[i].name == f.name {
                        assert(has_name(acc, f.name));
                    }
                }
            };
            lemma_merge_into_unique(acc.push(f), rest);
        }
    }
}

/// A multi-schema merge result carries pairwise distinct names whenever the
/// accumulator does.
pub proof fn lemma_merge_all_unique(acc: Seq<FieldView>, schemas: Seq<Seq<FieldView>>)
    requires
        names_unique(acc),
        merge_all(acc, schemas) is Ok,
    ensures
        names_unique(merge_all(acc, schemas)->Ok_0),
    decreases schemas.len(),
{
    if schemas.len() == 0 {
    } else {
        lemma_merge_into_unique(acc, schemas[0]);
        lemma_merge_all_unique(merge_into(acc, schemas[0])->Ok_0, schemas.drop_first());
    }
}

/// Merging two schemas with disjoint field names yields the exact union,
/// left-then-right order preserved.
pub proof fn lemma_merge_disjoint_union(s1: Seq<FieldView>, s2: Seq<FieldView>)
    requires
        names_unique(s1),
        names_unique(s2),
        forall|i: int, j: int| 0 <= i < s1.len() && 0 <= j < s2.len()
            ==> #[trigger] s1[i].name != #[trigger] s2[j].name,
    ensures
        merge_all(Seq::empty(), seq![s1, s2]) == Ok::<Seq<FieldView>, Seq<char>>(s1 + s2),
{
    assert(forall|i: int| 0 <= i < s1.len() ==> !has_name(Seq::empty(), #[trigger] s1[i].name));
    lemma_merge_into_fresh(Seq::empty(), s1);
    assert(Seq::<FieldView>::empty() + s1 =~= s1);
    assert forall|j: int| 0 <= j < s2.len() implies !has_name(s1, #[trigger] s2[j].name) by {
        assert(forall|i: int| 0 <= i < s1.len() ==> s1[i].name != s2[j].name);
    };
    lemma_merge_into_fresh(s1, s2);
    let ss = seq![s1, s2];
    assert(ss.drop_first() =~= seq![s2]);
    assert(seq![s2].drop_first() =~= Seq::<Seq<FieldView>>::empty());
    assert(merge_all(s1 + s2, Seq::empty()) == Ok::<Seq<FieldView>, Seq<char>>(s1 + s2));
    assert(merge_all(s1, seq![s2]) == Ok::<Seq<FieldView>, Seq<char>>(s1 + s2));
}

/// Merging a schema with itself yields it unchanged, one copy of each field:
/// the merge is idempotent on identical duplicates.
pub proof fn lemma_merge_idempotent(s: Seq<FieldView>)
    requires
        names_unique(s),
    ensures
        merge_all(Seq::empty(), seq![s, s]) == Ok::<Seq<FieldView>, Seq<char>>(s),
{
    assert(forall|i: int| 0 <= i < s.len() ==> !has_name(Seq::empty(), #[trigger] s[i].name));
    lemma_merge_into_fresh(Seq::empty(), s);
    assert(Seq::<FieldView>::empty() + s =~= s);
    assert forall|i: int| 0 <= i < s.len() implies has_name(s, #[trigger] s[i].name)
        && first_with_name(s, s[i].name) == s[i] by {
        lemma_first_with_name(s, s[i].name, i);
    };
    lemma_merge_into_dup(s, s);
    let ss = seq![s, s];
    assert(ss.drop_first() =~= seq![s]);
    assert(seq![s].drop_first() =~= Seq::<Seq<FieldView>>::empty());
    assert(merge_all(s, Seq::empty()) == Ok::<Seq<FieldView>, Seq<char>>(s));
    assert(merge_all(s, seq![s]) == Ok::<Seq<FieldView>, Seq<char>>(s));
}

/// An ordered, usually uniquely named, collection of fields.
#[derive(Debug)]
pub struct Schema {
    fields: Vec<Field>,
}

impl View for Schema {
    type V = Seq<FieldView>;

    closed spec fn view(&self) -> Seq<FieldView> {
        fields_view(self.fields@)
    }
}

impl Clone for Schema {
    fn clone(&self) -> (r: Schema)
        ensures
            r@ == self@,
    {
        let mut fields: Vec<Field> = Vec::new();
        let mut i: usize = 0;
        while i < self.fields.len()
            invariant
                i <= self.fields.len(),
                fields@.len() == i,
                forall|k: int| 0 <= k < i ==> fields@[k] == self.fields@[k],
            decreases self.fields.len() - i,
        {
            fields.push(self.fields[i].clone());
            i += 1;
        }
        let r = Schema { fields };
        proof {
            assert(r@ =~= self@);
        }
        r
    }
}

/// Scan `fields` for the first field named `name`.
pub(crate) fn find_name(fields: &Vec<Field>, name: &str) -> (r: Option<usize>)
    ensures
        match r {
            Some(i) => {
                &&& i < fields@.len()
                &&& has_name(fields_view(fields@), name@)
                &&& fields@[i as int]@.name == name@
                &&& first_with_name(fields_view(fields@), name@) == fields@[i as int]@
            },
            None => !has_name(fields_view(fields@), name@),
        },
{
    let key: String = name.to_owned();
    let mut i: usize = 0;
    while i < fields.len()
        invariant
            i <= fields.len(),
            key@ == name@,
            forall|k: int| 0 <= k < i ==> fields@[k]@.name != name@,
        decreases fields.len() - i,
    {
        if fields[i].name == key {
            proof {
                lemma_first_with_name(fields_view(fields@), name@, i as int);
            }
            return Some(i);
        }
        i += 1;
    }
    None
}

/// Folds `fields` into `out` as one `merge_into` step.
#[verifier::loop_isolation(false)]
fn merge_fields_into(out: Vec<Field>, fields: &Vec<Field>) -> (r: Result<
    Vec<Field>,
    PolarsError,
>)
    ensures
        match r {
            Ok(v) => merge_into(fields_view(out@), fields_view(fields@)) == Ok::<
                Seq<FieldView>,
                Seq<char>,
            >(fields_view(v@)),
            Err(e) => merge_into(fields_view(out@), fields_view(fields@)) matches Err(n)
                && e@ == ErrView::SchemaConflict(n),
        },
{
    let ghost acc0 = fields_view(out@);
    let ghost fs = fields_view(fields@);
    let mut cur = out;
    let mut j: usize = 0;
    proof {
        assert(fs.skip(0) =~= fs);
    }
    while j < fields.len()
        invariant
            j <= fields.len(),
            fs == fields_view(fields@),
            merge_into(fields_view(cur@), fs.skip(j as int)) == merge_into(acc0, fs),
        decreases fields.len() - j,
    {
        let ghost acc = fields_view(cur@);
        let ghost su = fs.skip(j as int);
        proof {
            assert(su.len() > 0);
            assert(su[0] == fields@[j as int]@);
            assert(su.drop_first() =~= fs.skip(j as int + 1));
        }
        let f = &fields[j];
        match find_name(&cur, f.name.as_str()) {
            Some(k) => {
                if cur[k].same(f) {
                    // identical duplicate: keep the single existing copy
                    proof {
                        assert(first_with_name(acc, su[0].name) == su[0]);
                        assert(merge_into(acc, su) == merge_into(acc, su.drop_first()));
                    }
                } else {
                    proof {
                        assert(has_name(acc, su[0].name));
                        assert(first_with_name(acc, su[0].name) != su[0]);
                        assert(merge_into(acc, su) == Err::<Seq<FieldView>, Seq<char>>(
                            su[0].name,
                        ));
                    }
                    return Err(PolarsError::SchemaConflict(f.name.clone()));
                }
            },
            None => {
                let g = f.clone();
                cur.push(g);
                proof {
                    assert(fields_view(cur@) =~= acc.push(su[0]));
                }
            },
        }
        j += 1;
    }
    proof {
        assert(fs.skip(fields@.len() as int) =~= Seq::<FieldView>::empty());
    }
    Ok(cur)
}

impl Schema {
    pub fn new(fields: Vec<Field>) -> (s: Schema)
        ensures
            s@ == fields_view(fields@),
    {
        Schema { fields }
    }

    /// The fields, in schema order.
    pub fn fields(&self) -> (r: &Vec<Field>)
        ensures
            r@.len() == self@.len(),
            forall|i: int| 0 <= i < r@.len() ==> r@[i]@ == self@[i],
    {
        &self.fields
    }

    /// Merges `schemas` left to right into one schema.  Identical duplicate
    /// fields collapse to one copy; a name carried with two different
    /// identities is a `SchemaConflict`.
    pub fn try_merge(schemas: &Vec<Schema>) -> (r: Result<Schema, PolarsError>)
        ensures
            match r {
                Ok(s) => merge_all(Seq::empty(), schemas_view(schemas@)) == Ok::<
                    Seq<FieldView>,
                    Seq<char>,
                >(s@),
                Err(e) => merge_all(Seq::empty(), schemas_view(schemas@)) matches Err(n)
                    && e@ == ErrView::SchemaConflict(n),
            },
    {
        let ghost all = schemas_view(schemas@);
        let mut out: Vec<Field> = Vec::new();
        let mut i: usize = 0;
        proof {
            assert(fields_view(out@) =~= Seq::<FieldView>::empty());
            assert(all.skip(0) =~= all);
        }
        while i < schemas.len()
            invariant
                i <= schemas.len(),
                all == schemas_view(schemas@),
                merge_all(fields_view(out@), all.skip(i as int)) == merge_all(
                    Seq::empty(),
                    all,
                ),
            decreases schemas.len() - i,
        {
            let ghost acc0 = fields_view(out@);
            let ghost su = all.skip(i as int);
            proof {
                assert(su.len() > 0);
                assert(su[0] == schemas@[i as int]@);
                assert(su.drop_first() =~= all.skip(i as int + 1));
            }
            match merge_fields_into(out, &schemas[i].fields) {
                Ok(v) => {
                    out = v;
                },
                Err(e) => {
                    return Err(e);
                },
            }
            i += 1;
        }
        proof {
            assert(all.skip(schemas@.len() as int) =~= Seq::<Seq<FieldView>>::empty());
        }
        Ok(Schema { fields: out })
    }

    /// Looks the field named `name` up; `UnknownField` when there is none.
    pub fn field_with_name(&self, name: &str) -> (r: Result<&Field, PolarsError>)
        ensures
            match r {
                Ok(f) => has_name(self@, name@) && f@ == first_with_name(self@, name@),
                Err(e) => !has_name(self@, name@) && e@ == ErrView::UnknownField(name@),
            },
    {
        match find_name(&self.fields, name) {
            Some(i) => Ok(&self.fields[i]),
            None => Err(PolarsError::UnknownField(name.to_owned())),
        }
    }
}

} // verus!
