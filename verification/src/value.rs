use vstd::prelude::*;

verus! {

/// A structured wire value: the shape of the data that the protocol
/// carries inside frames and payloads. Parsing text into this shape and
/// serializing it back are left to the transport edge; every rule of the
/// protocol is stated and checked over values of this type.
///
/// Numbers are carried as `i64`; a wire number outside that range is
/// represented as `Null` (the session reads only small non-negative
/// numbers, so nothing downstream distinguishes the two).
#[derive(Debug, PartialEq, Eq)]
pub enum Json {
    Null,
    Bool(bool),
    Int(i64),
    Str(String),
    Arr(Vec<Json>),
    Obj(Vec<(String, Json)>),
}

/// The mathematical model of a wire value, used by every contract.
#[verifier::ext_equal]
pub enum JsonModel {
    Null,
    Bool(bool),
    Int(int),
    Str(Seq<char>),
    Arr(Seq<JsonModel>),
    Obj(Seq<(Seq<char>, JsonModel)>),
}

/// The model of a `Json` value.
pub open spec fn jmodel(j: Json) -> JsonModel
    decreases j,
{
    match j {
        Json::Null => JsonModel::Null,
        Json::Bool(b) => JsonModel::Bool(b),
        Json::Int(i) => JsonModel::Int(i as int),
        Json::Str(s) => JsonModel::Str(s@),
        Json::Arr(items) => JsonModel::Arr(jmodel_seq(items@)),
        Json::Obj(fields) => JsonModel::Obj(jmodel_fields(fields@)),
    }
}

/// The models of the elements of an array, in order.
pub open spec fn jmodel_seq(items: Seq<Json>) -> Seq<JsonModel>
    decreases items,
{
    if items.len() == 0 {
        Seq::empty()
    } else {
        seq![jmodel(items[0])] + jmodel_seq(items.subrange(1, items.len() as int))
    }
}

/// The models of the fields of an object, in order.
pub open spec fn jmodel_fields(fields: Seq<(String, Json)>) -> Seq<(Seq<char>, JsonModel)>
    decreases fields,
{
    if fields.len() == 0 {
        Seq::empty()
    } else {
        seq![(fields[0].0@, jmodel(fields[0].1))] + jmodel_fields(
            fields.subrange(1, fields.len() as int),
        )
    }
}

/// Point-wise reading of the element models.
pub proof fn lemma_jmodel_seq(items: Seq<Json>)
    ensures
        jmodel_seq(items).len() == items.len(),
        forall|i: int| 0 <= i < items.len() ==> jmodel_seq(items)[i] == jmodel(items[i]),
    decreases items,
{
    if items.len() > 0 {
        lemma_jmodel_seq(items.subrange(1, items.len() as int));
    }
}

/// Point-wise reading of the field models.
pub proof fn lemma_jmodel_fields(fields: Seq<(String, Json)>)
    ensures
        jmodel_fields(fields).len() == fields.len(),
        forall|i: int|
            0 <= i < fields.len() ==> jmodel_fields(fields)[i] == (
                fields[i].0@,
                jmodel(fields[i].1),
            ),
    decreases fields,
{
    if fields.len() > 0 {
        lemma_jmodel_fields(fields.subrange(1, fields.len() as int));
    }
}

impl View for Json {
    type V = JsonModel;

    open spec fn view(&self) -> JsonModel {
        jmodel(*self)
    }
}

/// First binding of `key` among the fields of an object, if any.
pub open spec fn obj_lookup(fields: Seq<(Seq<char>, JsonModel)>, key: Seq<char>) -> Option<
    JsonModel,
>
    decreases fields.len(),
{
    if fields.len() == 0 {
        None
    } else if fields[0].0 == key {
        Some(fields[0].1)
    } else {
        obj_lookup(fields.subrange(1, fields.len() as int), key)
    }
}

/// Field lookup on a wire value: `None` unless the value is an object
/// holding the key.
pub open spec fn jlookup(j: JsonModel, key: Seq<char>) -> Option<JsonModel> {
    match j {
        JsonModel::Obj(fields) => obj_lookup(fields, key),
        _ => None,
    }
}

proof fn lemma_obj_lookup_at(fields: Seq<(Seq<char>, JsonModel)>, key: Seq<char>, i: int)
    requires
        0 <= i < fields.len(),
        forall|k: int| 0 <= k < i ==> fields[k].0 != key,
        fields[i].0 == key,
    ensures
        obj_lookup(fields, key) == Some(fields[i].1),
    decreases i,
{
    if i > 0 {
        lemma_obj_lookup_at(fields.subrange(1, fields.len() as int), key, i - 1);
    }
}

proof fn lemma_obj_lookup_absent(fields: Seq<(Seq<char>, JsonModel)>, key: Seq<char>)
    requires
        forall|k: int| 0 <= k < fields.len() ==> fields[k].0 != key,
    ensures
        obj_lookup(fields, key) is None,
    decreases fields.len(),
{
    if fields.len() > 0 {
        lemma_obj_lookup_absent(fields.subrange(1, fields.len() as int), key);
    }
}

/// String equality over the character sequences of the two inputs.
pub fn str_eq(a: &str, b: &str) -> (r: bool)
    ensures
        r == (a@ == b@),
{
    let sa: String = a.to_owned();
    let sb: String = b.to_owned();
    sa == sb
}

impl Json {
    /// Looks a key up in an object value; `None` for any other kind of
    /// value or when the key is absent.
    pub fn get_field<'a>(&'a self, key: &str) -> (r: Option<&'a Json>)
        ensures
            match r {
                Some(v) => jlookup(self@, key@) == Some(v@),
                None => jlookup(self@, key@) is None,
            },
    {
        match self {
            Json::Obj(fields) => {
                let ghost fm = jmodel_fields(fields@);
                proof {
                    lemma_jmodel_fields(fields@);
                }
                let mut i: usize = 0;
                while i < fields.len()
                    invariant
                        0 <= i <= fields@.len(),
                        fm == jmodel_fields(fields@),
                        fm.len() == fields@.len(),
                        forall|k: int|
                            0 <= k < fields@.len() ==> fm[k] == (
                                fields@[k].0@,
                                jmodel(fields@[k].1),
                            ),
                        jlookup(jmodel(*self), key@) == obj_lookup(fm, key@),
                        forall|k: int| 0 <= k < i ==> fm[k].0 != key@,
                    decreases fields@.len() - i,
                {
                    if str_eq(fields[i].0.as_str(), key) {
                        proof {
                            lemma_obj_lookup_at(fm, key@, i as int);
                        }
                        return Some(&fields[i].1);
                    }
                    i = i + 1;
                }
                proof {
                    lemma_obj_lookup_absent(fm, key@);
                }
                None
            },
            _ => None,
        }
    }
}

} // verus!
