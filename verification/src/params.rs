//! Schema-driven parameter binding.
//!
//! A class declares an ordered schema of named, typed parameters, possibly
//! with defaults.  A caller supplies a name → value map.  Binding resolves
//! one value per declaration (supplied value, else declared default, else a
//! missing-parameter error), sorts the resolved entries by parameter name,
//! and serializes them into a canonical byte string.  The serialized bytes
//! are a pure function of the schema and the abstract map — never of
//! declaration order of equal names or of map insertion order — because the
//! server keys caching on them.

use vstd::prelude::*;
use crate::assoc::AssocList;
use crate::wire::bytes_le;
use crate::wire::clone_bytes;
use crate::wire::lex_le;
use crate::wire::len_field_spec;
use crate::wire::varint_field_spec;
use crate::wire::push_len_field;
use crate::wire::push_varint_field;

verus! {

/// The declared scalar kind of a parameter.
#[derive(Clone, Copy, PartialEq, Eq, Structural, Debug)]
pub enum ParamKind {
    Str,
    Int,
    Bool,
    Bytes,
}

/// A caller-supplied parameter value.  Text is carried as its UTF-8 bytes.
/// `Other` stands for any dynamic kind the encoder does not understand.
#[derive(Debug, Clone)]
pub enum ParamValue {
    Str(Vec<u8>),
    Int(i64),
    Bool(bool),
    Bytes(Vec<u8>),
    Other,
}

/// The abstract value of a [`ParamValue`].
pub enum ValueModel {
    Str(Seq<u8>),
    Int(i64),
    Bool(bool),
    Bytes(Seq<u8>),
    Other,
}

impl View for ParamValue {
    type V = ValueModel;

    open spec fn view(&self) -> ValueModel {
        match self {
            ParamValue::Str(s) => ValueModel::Str(s@),
            ParamValue::Int(i) => ValueModel::Int(*i),
            ParamValue::Bool(b) => ValueModel::Bool(*b),
            ParamValue::Bytes(s) => ValueModel::Bytes(s@),
            ParamValue::Other => ValueModel::Other,
        }
    }
}

/// One parameter declaration of a class schema.
#[derive(Debug, Clone)]
pub struct ParamDecl {
    pub name: Vec<u8>,
    pub kind: ParamKind,
    pub default: Option<ParamValue>,
}

/// The abstract value of a [`ParamDecl`].
pub struct DeclModel {
    pub name: Seq<u8>,
    pub kind: ParamKind,
    pub default: Option<ValueModel>,
}

impl View for ParamDecl {
    type V = DeclModel;

    open spec fn view(&self) -> DeclModel {
        DeclModel {
            name: self.name@,
            kind: self.kind,
            default: match &self.default {
                Some(v) => Some(v@),
                None => None,
            },
        }
    }
}

/// The caller-supplied name → value map.
pub type ParamMap = AssocList<ParamValue>;

/// A binding-time validation failure, naming the offending parameter.
#[derive(Debug)]
pub enum BindError {
    /// A declaration has neither a default nor a matching input.
    MissingParameter(Vec<u8>),
    /// The supplied value has a kind the encoder does not understand.
    UnsupportedValueType(Vec<u8>),
    /// The class carries no handle metadata at all.
    MetadataMissing,
}

/// The abstract value of a [`BindError`].
pub enum BindErrorModel {
    MissingParameter(Seq<u8>),
    UnsupportedValueType(Seq<u8>),
    MetadataMissing,
}

impl View for BindError {
    type V = BindErrorModel;

    open spec fn view(&self) -> BindErrorModel {
        match self {
            BindError::MissingParameter(n) => BindErrorModel::MissingParameter(n@),
            BindError::UnsupportedValueType(n) => BindErrorModel::UnsupportedValueType(n@),
            BindError::MetadataMissing => BindErrorModel::MetadataMissing,
        }
    }
}

/// A resolved entry, ready to serialize.
pub struct EncodedEntry {
    pub name: Vec<u8>,
    pub kind: ParamKind,
    pub value: ParamValue,
}

/// The abstract value of an [`EncodedEntry`].
pub struct EntryModel {
    pub name: Seq<u8>,
    pub kind: ParamKind,
    pub value: ValueModel,
}

impl View for EncodedEntry {
    type V = EntryModel;

    open spec fn view(&self) -> EntryModel {
        EntryModel { name: self.name@, kind: self.kind, value: self.value@ }
    }
}

/// The abstract values of a schema.
pub open spec fn decls_view(s: Seq<ParamDecl>) -> Seq<DeclModel> {
    s.map_values(|d: ParamDecl| d@)
}

/// The abstract values of a list of resolved entries.
pub open spec fn entries_view(s: Seq<EncodedEntry>) -> Seq<EntryModel> {
    s.map_values(|e: EncodedEntry| e@)
}

/// The wire tag of a declared parameter kind.
pub open spec fn kind_tag(k: ParamKind) -> nat {
    match k {
        ParamKind::Str => 1,
        ParamKind::Int => 2,
        ParamKind::Bool => 3,
        ParamKind::Bytes => 4,
    }
}

/// The two's-complement bit pattern of a signed 64-bit integer.
pub open spec fn int64_bits(i: i64) -> nat {
    if i >= 0 {
        i as nat
    } else {
        (i + 0x10000000000000000) as nat
    }
}

/// Resolves one declaration against the input map: a supplied value of a
/// supported kind wins, else the declared default, else missing-parameter.
pub open spec fn resolve_decl(d: DeclModel, inputs: Map<Seq<u8>, ValueModel>) -> Result<
    EntryModel,
    BindErrorModel,
> {
    if inputs.contains_key(d.name) {
        if inputs[d.name] is Other {
            Err(BindErrorModel::UnsupportedValueType(d.name))
        } else {
            Ok(EntryModel { name: d.name, kind: d.kind, value: inputs[d.name] })
        }
    } else {
        match d.default {
            Some(v) => Ok(EntryModel { name: d.name, kind: d.kind, value: v }),
            None => Err(BindErrorModel::MissingParameter(d.name)),
        }
    }
}

/// Resolves every declaration in schema order; the first failure wins.
pub open spec fn resolve_schema(schema: Seq<DeclModel>, inputs: Map<Seq<u8>, ValueModel>) -> Result<
    Seq<EntryModel>,
    BindErrorModel,
>
    decreases schema.len(),
{
    if schema.len() == 0 {
        Ok(Seq::empty())
    } else {
        match resolve_decl(schema[0], inputs) {
            Ok(e) => match resolve_schema(schema.skip(1), inputs) {
                Ok(rest) => Ok(seq![e] + rest),
                Err(er) => Err(er),
            },
            Err(er) => Err(er),
        }
    }
}

/// Prepends already-resolved entries to a resolution result.
pub open spec fn concat_entries(
    pre: Seq<EntryModel>,
    r: Result<Seq<EntryModel>, BindErrorModel>,
) -> Result<Seq<EntryModel>, BindErrorModel> {
    match r {
        Ok(rest) => Ok(pre + rest),
        Err(e) => Err(e),
    }
}

/// Inserts an entry into a name-sorted entry list, before the first entry
/// it does not follow.
pub open spec fn insert_sorted(e: EntryModel, s: Seq<EntryModel>) -> Seq<EntryModel>
    decreases s.len(),
{
    if s.len() == 0 {
        seq![e]
    } else if lex_le(e.name, s[0].name) {
        seq![e] + s
    } else {
        seq![s[0]] + insert_sorted(e, s.skip(1))
    }
}

/// Sorts resolved entries by parameter name (insertion sort, so the result
/// is one fixed sequence for any given input).
pub open spec fn sort_entries(s: Seq<EntryModel>) -> Seq<EntryModel>
    decreases s.len(),
{
    if s.len() == 0 {
        Seq::empty()
    } else {
        insert_sorted(s.last(), sort_entries(s.drop_last()))
    }
}

/// The serialized fields of one resolved value.
pub open spec fn value_fields_spec(v: ValueModel) -> Seq<u8> {
    match v {
        ValueModel::Str(s) => len_field_spec(3, s),
        ValueModel::Int(i) => varint_field_spec(4, int64_bits(i)),
        ValueModel::Bool(b) => varint_field_spec(5, if b { 1nat } else { 0nat }),
        ValueModel::Bytes(s) => len_field_spec(6, s),
        ValueModel::Other => Seq::empty(),
    }
}

/// The serialized form of one resolved entry: name, kind tag, value.
pub open spec fn encode_entry(e: EntryModel) -> Seq<u8> {
    len_field_spec(1, e.name) + varint_field_spec(2, kind_tag(e.kind)) + value_fields_spec(e.value)
}

/// The serialized form of an entry list: one length-delimited field each.
pub open spec fn encode_set(s: Seq<EntryModel>) -> Seq<u8>
    decreases s.len(),
{
    if s.len() == 0 {
        Seq::empty()
    } else {
        encode_set(s.drop_last()) + len_field_spec(1, encode_entry(s.last()))
    }
}

/// The whole binding: resolve, sort by name, serialize.
pub open spec fn encode_parameter_set_spec(
    schema: Seq<DeclModel>,
    inputs: Map<Seq<u8>, ValueModel>,
) -> Result<Seq<u8>, BindErrorModel> {
    match resolve_schema(schema, inputs) {
        Ok(entries) => Ok(encode_set(sort_entries(entries))),
        Err(e) => Err(e),
    }
}

/// The abstract value of an encoding result.
pub open spec fn bind_result_view(r: Result<Vec<u8>, BindError>) -> Result<
    Seq<u8>,
    BindErrorModel,
> {
    match r {
        Ok(v) => Ok(v@),
        Err(e) => Err(e@),
    }
}

impl ParamValue {
    /// Copies the value.
    pub fn duplicate(&self) -> (r: ParamValue)
        ensures
            r@ == self@,
    {
        match self {
            ParamValue::Str(s) => ParamValue::Str(clone_bytes(s)),
            ParamValue::Int(i) => ParamValue::Int(*i),
            ParamValue::Bool(b) => ParamValue::Bool(*b),
            ParamValue::Bytes(s) => ParamValue::Bytes(clone_bytes(s)),
            ParamValue::Other => ParamValue::Other,
        }
    }
}

/// The wire tag of a declared parameter kind.
fn kind_tag_value(k: ParamKind) -> (r: u64)
    ensures
        r as nat == kind_tag(k),
{
    match k {
        ParamKind::Str => 1,
        ParamKind::Int => 2,
        ParamKind::Bool => 3,
        ParamKind::Bytes => 4,
    }
}

/// The two's-complement bit pattern of a signed 64-bit integer.
fn int64_to_bits(i: i64) -> (r: u64)
    ensures
        r as nat == int64_bits(i),
{
    if i >= 0 {
        i as u64
    } else {
        let off: i64 = (i + 0x4000000000000000) + 0x4000000000000000;
        (off as u64) + 0x8000000000000000u64
    }
}

/// Resolves one declaration against the caller's map.
fn resolve_one(d: &ParamDecl, parameters: &ParamMap) -> (r: Result<EncodedEntry, BindError>)
    ensures
        match r {
            Ok(e) => resolve_decl(d@, parameters@) == Ok::<EntryModel, BindErrorModel>(e@),
            Err(er) => resolve_decl(d@, parameters@) == Err::<EntryModel, BindErrorModel>(er@),
        },
{
    match parameters.get(&d.name) {
        Some(v) => match v {
            ParamValue::Other => Err(BindError::UnsupportedValueType(clone_bytes(&d.name))),
            _ => Ok(
                EncodedEntry { name: clone_bytes(&d.name), kind: d.kind, value: v.duplicate() },
            ),
        },
        None => match &d.default {
            Some(v) => Ok(
                EncodedEntry { name: clone_bytes(&d.name), kind: d.kind, value: v.duplicate() },
            ),
            None => Err(BindError::MissingParameter(clone_bytes(&d.name))),
        },
    }
}

/// Splitting an entry list at the insertion point realizes `insert_sorted`.
proof fn lemma_insert_sorted_at(e: EntryModel, s: Seq<EntryModel>, j: int)
    requires
        0 <= j <= s.len(),
        forall|k: int| 0 <= k < j ==> !lex_le(e.name, s[k].name),
        j < s.len() ==> lex_le(e.name, s[j].name),
    ensures
        insert_sorted(e, s) == s.subrange(0, j).push(e) + s.subrange(j, s.len() as int),
    decreases j,
{
    if j == 0 {
        if s.len() == 0 {
            assert(insert_sorted(e, s) =~= s.subrange(0, 0).push(e) + s.subrange(0, 0));
        } else {
            assert(lex_le(e.name, s[0].name));
            assert(insert_sorted(e, s) =~= s.subrange(0, 0).push(e) + s.subrange(0, s.len() as int));
        }
    } else {
        assert(!lex_le(e.name, s[0].name));
        assert forall|k: int| 0 <= k < j - 1 implies !lex_le(e.name, s.skip(1)[k].name) by {
            assert(s.skip(1)[k] == s[k + 1]);
        }
        assert(j - 1 < s.skip(1).len() ==> lex_le(e.name, s.skip(1)[j - 1].name));
        lemma_insert_sorted_at(e, s.skip(1), j - 1);
        assert(seq![s[0]] + (s.skip(1).subrange(0, j - 1).push(e) + s.skip(1).subrange(
            j - 1,
            s.skip(1).len() as int,
        )) =~= s.subrange(0, j).push(e) + s.subrange(j, s.len() as int));
    }
}

/// Inserts a resolved entry into a name-sorted list.
fn insert_entry_sorted(acc: &mut Vec<EncodedEntry>, e: EncodedEntry)
    ensures
        entries_view(final(acc)@) == insert_sorted(e@, entries_view(old(acc)@)),
{
    let ghost models: Seq<EntryModel> = entries_view(acc@);
    let mut j: usize = 0;
    while j < acc.len() && !bytes_le(&e.name, &acc[j].name)
        invariant
            0 <= j <= acc@.len(),
            acc@ == old(acc)@,
            forall|k: int| 0 <= k < j ==> !lex_le(e@.name, entries_view(acc@)[k].name),
        decreases acc@.len() - j,
    {
        j = j + 1;
    }
    proof {
        lemma_insert_sorted_at(e@, models, j as int);
    }
    let ghost em: EntryModel = e@;
    acc.insert(j, e);
    proof {
        assert(acc@ == old(acc)@.insert(j as int, e));
        assert(entries_view(acc@) =~= models.subrange(0, j as int).push(em) + models.subrange(
            j as int,
            models.len() as int,
        ));
    }
}

/// Serializes one resolved entry (without its outer framing).
fn encode_entry_bytes(e: &EncodedEntry) -> (r: Vec<u8>)
    ensures
        r@ == encode_entry(e@),
{
    let mut out: Vec<u8> = Vec::new();
    push_len_field(&mut out, 1, &e.name);
    push_varint_field(&mut out, 2, kind_tag_value(e.kind));
    match &e.value {
        ParamValue::Str(s) => push_len_field(&mut out, 3, s),
        ParamValue::Int(v) => push_varint_field(&mut out, 4, int64_to_bits(*v)),
        ParamValue::Bool(b) => push_varint_field(&mut out, 5, if *b { 1 } else { 0 }),
        ParamValue::Bytes(s) => push_len_field(&mut out, 6, s),
        ParamValue::Other => {},
    }
    proof {
        assert(out@ =~= encode_entry(e@));
    }
    out
}

/// Serializes a sorted entry list.
fn encode_entries(entries: &Vec<EncodedEntry>) -> (r: Vec<u8>)
    ensures
        r@ == encode_set(entries_view(entries@)),
{
    let mut out: Vec<u8> = Vec::new();
    let mut i: usize = 0;
    while i < entries.len()
        invariant
            0 <= i <= entries@.len(),
            out@ == encode_set(entries_view(entries@).take(i as int)),
        decreases entries@.len() - i,
    {
        let entry_bytes = encode_entry_bytes(&entries[i]);
        push_len_field(&mut out, 1, &entry_bytes);
        i = i + 1;
        proof {
            let models = entries_view(entries@);
            assert(models.take(i as int).drop_last() =~= models.take(i as int - 1));
            assert(models.take(i as int).last() == models[i as int - 1]);
        }
    }
    proof {
        assert(entries_view(entries@).take(entries@.len() as int) =~= entries_view(entries@));
    }
    out
}

/// Encodes a parameter set against a schema: resolve every declaration in
/// schema order (first failure wins), sort the resolved entries by name,
/// and serialize them.  The result is a pure function of the schema and of
/// the abstract name → value map.
pub fn encode_parameter_set(schema: &Vec<ParamDecl>, parameters: &ParamMap) -> (r: Result<
    Vec<u8>,
    BindError,
>)
    ensures
        bind_result_view(r) == encode_parameter_set_spec(decls_view(schema@), parameters@),
{
    let ghost ds: Seq<DeclModel> = decls_view(schema@);
    let ghost inputs: Map<Seq<u8>, ValueModel> = parameters@;
    let mut sorted: Vec<EncodedEntry> = Vec::new();
    let ghost mut resolved: Seq<EntryModel> = Seq::empty();
    let mut i: usize = 0;
    proof {
        assert(ds.skip(0) =~= ds);
        if let Ok(rest) = resolve_schema(ds, inputs) {
            assert(resolved + rest =~= rest);
        }
    }
    while i < schema.len()
        invariant
            0 <= i <= schema@.len(),
            ds == decls_view(schema@),
            inputs == parameters@,
            resolve_schema(ds, inputs) == concat_entries(
                resolved,
                resolve_schema(ds.skip(i as int), inputs),
            ),
            entries_view(sorted@) == sort_entries(resolved),
        decreases schema@.len() - i,
    {
        let rr = resolve_one(&schema[i], parameters);
        proof {
            assert(ds.skip(i as int)[0] == ds[i as int]);
            assert(ds[i as int] == schema@[i as int]@);
            assert(ds.skip(i as int).skip(1) =~= ds.skip(i as int + 1));
        }
        match rr {
            Err(e) => {
                proof {
                    assert(resolve_schema(ds.skip(i as int), inputs) == Err::<
                        Seq<EntryModel>,
                        BindErrorModel,
                    >(e@));
                }
                return Err(e);
            },
            Ok(entry) => {
                let ghost em: EntryModel = entry@;
                proof {
                    match resolve_schema(ds.skip(i as int + 1), inputs) {
                        Ok(rest) => {
                            assert(resolved + (seq![em] + rest) =~= resolved.push(em) + rest);
                        },
                        Err(_) => {},
                    }
                }
                insert_entry_sorted(&mut sorted, entry);
                proof {
                    assert(resolved.push(em).drop_last() =~= resolved);
                    assert(resolved.push(em).last() == em);
                    resolved = resolved.push(em);
                }
                i = i + 1;
            },
        }
    }
    proof {
        assert(ds.skip(ds.len() as int) =~= Seq::<DeclModel>::empty());
        assert(resolved + Seq::<EntryModel>::empty() =~= resolved);
    }
    let bytes = encode_entries(&sorted);
    Ok(bytes)
}

/// Entries in non-descending name order.
pub open spec fn entries_sorted(s: Seq<EntryModel>) -> bool {
    forall|i: int, j: int| 0 <= i < j < s.len() ==> lex_le(s[i].name, s[j].name)
}

/// Inserting grows the entry list by exactly one.
proof fn lemma_insert_sorted_len(e: EntryModel, s: Seq<EntryModel>)
    ensures
        insert_sorted(e, s).len() == s.len() + 1,
    decreases s.len(),
{
    if s.len() > 0 && !lex_le(e.name, s[0].name) {
        lemma_insert_sorted_len(e, s.skip(1));
    }
}

/// Every entry of an insertion result is the inserted entry or one of the
/// original entries.
proof fn lemma_insert_sorted_membership(e: EntryModel, s: Seq<EntryModel>, k: int)
    requires
        0 <= k < insert_sorted(e, s).len(),
    ensures
        insert_sorted(e, s)[k] == e || s.contains(insert_sorted(e, s)[k]),
    decreases s.len(),
{
    let r = insert_sorted(e, s);
    if s.len() == 0 {
    } else if lex_le(e.name, s[0].name) {
        if k > 0 {
            assert(r[k] == s[k - 1]);
            assert(s.contains(s[k - 1]));
        }
    } else {
        if k == 0 {
            assert(r[0] == s[0]);
            assert(s.contains(s[0]));
        } else {
            lemma_insert_sorted_membership(e, s.skip(1), k - 1);
            let r2 = insert_sorted(e, s.skip(1));
            assert(r[k] == r2[k - 1]);
            if r2[k - 1] != e {
                let x = r2[k - 1];
                let w = choose|t: int| 0 <= t < s.skip(1).len() && s.skip(1)[t] == x;
                assert(s[w + 1] == x);
                assert(s.contains(x));
            }
        }
    }
}

/// Inserting at the first fitting position keeps the list sorted.
proof fn lemma_insert_sorted_keeps_sorted(e: EntryModel, s: Seq<EntryModel>)
    requires
        entries_sorted(s),
    ensures
        entries_sorted(insert_sorted(e, s)),
    decreases s.len(),
{
    let r = insert_sorted(e, s);
    if s.len() == 0 {
    } else if lex_le(e.name, s[0].name) {
        assert forall|i: int, j: int| 0 <= i < j < r.len() implies lex_le(
            r[i].name,
            r[j].name,
        ) by {
            if i == 0 {
                assert(r[j] == s[j - 1]);
                if j - 1 > 0 {
                    assert(lex_le(s[0].name, s[j - 1].name));
                    crate::wire::lemma_lex_le_trans(e.name, s[0].name, s[j - 1].name);
                }
            } else {
                assert(r[i] == s[i - 1]);
                assert(r[j] == s[j - 1]);
            }
        }
    } else {
        crate::wire::lemma_lex_le_total(e.name, s[0].name);
        assert(entries_sorted(s.skip(1))) by {
            assert forall|i: int, j: int| 0 <= i < j < s.skip(1).len() implies lex_le(
                s.skip(1)[i].name,
                s.skip(1)[j].name,
            ) by {
                assert(s.skip(1)[i] == s[i + 1]);
                assert(s.skip(1)[j] == s[j + 1]);
            }
        }
        lemma_insert_sorted_keeps_sorted(e, s.skip(1));
        lemma_insert_sorted_len(e, s.skip(1));
        let r2 = insert_sorted(e, s.skip(1));
        assert forall|i: int, j: int| 0 <= i < j < r.len() implies lex_le(
            r[i].name,
            r[j].name,
        ) by {
            if i == 0 {
                assert(r[j] == r2[j - 1]);
                lemma_insert_sorted_membership(e, s.skip(1), j - 1);
                if r2[j - 1] == e {
                } else {
                    let x = r2[j - 1];
                    let w = choose|t: int| 0 <= t < s.skip(1).len() && s.skip(1)[t] == x;
                    assert(s[w + 1] == x);
                    assert(lex_le(s[0].name, s[w + 1].name));
                }
            } else {
                assert(r[i] == r2[i - 1]);
                assert(r[j] == r2[j - 1]);
            }
        }
    }
}

/// Inserting an entry adds exactly that entry to the list's contents.
proof fn lemma_insert_sorted_multiset(e: EntryModel, s: Seq<EntryModel>)
    ensures
        insert_sorted(e, s).to_multiset() =~= s.to_multiset().insert(e),
    decreases s.len(),
{
    broadcast use vstd::seq_lib::group_to_multiset_ensures;
    broadcast use vstd::multiset::group_multiset_axioms;

    if s.len() == 0 {
        assert(seq![e] =~= Seq::<EntryModel>::empty().push(e));
    } else if lex_le(e.name, s[0].name) {
        vstd::seq_lib::lemma_multiset_commutative(seq![e], s);
        assert(seq![e] =~= Seq::<EntryModel>::empty().push(e));
    } else {
        lemma_insert_sorted_multiset(e, s.skip(1));
        vstd::seq_lib::lemma_multiset_commutative(seq![s[0]], insert_sorted(e, s.skip(1)));
        assert(s =~= seq![s[0]] + s.skip(1));
        vstd::seq_lib::lemma_multiset_commutative(seq![s[0]], s.skip(1));
    }
}

/// Law: sorting neither adds, drops, nor alters an entry: the sorted list
/// holds exactly the resolved entries.
pub proof fn lemma_sort_entries_permutes(s: Seq<EntryModel>)
    ensures
        sort_entries(s).to_multiset() =~= s.to_multiset(),
    decreases s.len(),
{
    broadcast use vstd::seq_lib::group_to_multiset_ensures;

    if s.len() > 0 {
        lemma_sort_entries_permutes(s.drop_last());
        lemma_insert_sorted_multiset(s.last(), sort_entries(s.drop_last()));
        assert(s =~= s.drop_last().push(s.last()));
    }
}

/// Law: the canonical entry list really is sorted by parameter name, for
/// any resolved entries in any order.
pub proof fn lemma_sort_entries_sorted(s: Seq<EntryModel>)
    ensures
        entries_sorted(sort_entries(s)),
    decreases s.len(),
{
    if s.len() > 0 {
        lemma_sort_entries_sorted(s.drop_last());
        lemma_insert_sorted_keeps_sorted(s.last(), sort_entries(s.drop_last()));
    }
}

/// Inserting bindings of distinct names commutes, so two maps built from
/// the same bindings in different insertion orders are the same map.
pub proof fn lemma_distinct_inserts_commute(
    m: Map<Seq<u8>, ValueModel>,
    n1: Seq<u8>,
    v1: ValueModel,
    n2: Seq<u8>,
    v2: ValueModel,
)
    requires
        n1 != n2,
    ensures
        m.insert(n1, v1).insert(n2, v2) == m.insert(n2, v2).insert(n1, v1),
{
    assert(m.insert(n1, v1).insert(n2, v2) =~= m.insert(n2, v2).insert(n1, v1));
}

/// Law: the canonical encoding is deterministic.  Two parameter maps that
/// contain the same bindings — however they were built, in whatever
/// insertion order — encode to byte-identical output under any schema.
pub proof fn lemma_deterministic_encoding(
    schema: Seq<DeclModel>,
    p1: &ParamMap,
    p2: &ParamMap,
)
    requires
        p1@ =~= p2@,
    ensures
        encode_parameter_set_spec(schema, p1@) == encode_parameter_set_spec(schema, p2@),
{
}

/// Resolution with only supported inputs fails exactly on a declaration
/// with no default and no matching input, and then with missing-parameter.
proof fn lemma_resolve_missing(schema: Seq<DeclModel>, inputs: Map<Seq<u8>, ValueModel>)
    requires
        forall|k: Seq<u8>| inputs.contains_key(k) ==> !(inputs[k] is Other),
    ensures
        (resolve_schema(schema, inputs) is Err) <==> (exists|i: int|
            0 <= i < schema.len() && schema[i].default is None && !inputs.contains_key(
                schema[i].name,
            )),
        resolve_schema(schema, inputs) matches Err(e) ==> e is MissingParameter,
    decreases schema.len(),
{
    if schema.len() > 0 {
        lemma_resolve_missing(schema.skip(1), inputs);
        if resolve_schema(schema, inputs) is Err {
            if resolve_decl(schema[0], inputs) is Err {
                assert(schema[0].default is None && !inputs.contains_key(schema[0].name));
            } else {
                let w = choose|i: int|
                    0 <= i < schema.skip(1).len() && schema.skip(1)[i].default is None
                        && !inputs.contains_key(schema.skip(1)[i].name);
                assert(schema.skip(1)[w] == schema[w + 1]);
            }
        }
        if exists|i: int|
            0 <= i < schema.len() && schema[i].default is None && !inputs.contains_key(
                schema[i].name,
            ) {
            let w = choose|i: int|
                0 <= i < schema.len() && schema[i].default is None && !inputs.contains_key(
                    schema[i].name,
                );
            if w == 0 {
                assert(resolve_decl(schema[0], inputs) is Err);
            } else {
                assert(schema.skip(1)[w - 1] == schema[w]);
                assert(resolve_schema(schema.skip(1), inputs) is Err);
            }
        }
    }
}

/// Law: schema completeness.  When every supplied value is of a kind the
/// encoder understands, encoding fails — and then with missing-parameter —
/// exactly when some declaration has neither a default nor a matching
/// input; otherwise it returns the canonical bytes.
pub proof fn lemma_schema_completeness(schema: Seq<DeclModel>, inputs: Map<Seq<u8>, ValueModel>)
    requires
        forall|k: Seq<u8>| inputs.contains_key(k) ==> !(inputs[k] is Other),
    ensures
        (encode_parameter_set_spec(schema, inputs) is Err) <==> (exists|i: int|
            0 <= i < schema.len() && schema[i].default is None && !inputs.contains_key(
                schema[i].name,
            )),
        encode_parameter_set_spec(schema, inputs) matches Err(e) ==> e is MissingParameter,
{
    lemma_resolve_missing(schema, inputs);
}

} // verus!
