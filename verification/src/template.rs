//! The values that a command template is rendered with.  Rendering itself
//! is left to whoever holds the template engine: it reads files and is not
//! defined on every value.

use vstd::prelude::*;

verus! {

/// A value that a template can be rendered with.
#[derive(Debug)]
pub enum TemplateValue {
    /// An absent value.
    Null,
    Text(String),
    Flag(bool),
    List(Vec<TemplateValue>),
    /// Named fields; of two fields of one name the later counts.
    Record(Vec<(String, TemplateValue)>),
}

/// What a `TemplateValue` denotes.
pub enum TemplateData {
    Null,
    Text(Seq<char>),
    Flag(bool),
    List(Seq<TemplateData>),
    Record(Map<Seq<char>, TemplateData>),
}

/// Position of the last of the first `upto` fields that is named `name`,
/// or -1 if none is.
pub open spec fn spec_last_position<T>(fields: Seq<(String, T)>, name: Seq<char>, upto: int) -> int
    decreases upto,
{
    if upto <= 0 {
        -1
    } else if fields[upto - 1].0@ == name {
        upto - 1
    } else {
        spec_last_position(fields, name, upto - 1)
    }
}

impl View for TemplateValue {
    type V = TemplateData;

    open spec fn view(&self) -> TemplateData
        decreases self,
    {
        match self {
            TemplateValue::Null => TemplateData::Null,
            TemplateValue::Text(s) => TemplateData::Text(s@),
            TemplateValue::Flag(b) => TemplateData::Flag(*b),
            TemplateValue::List(items) => TemplateData::List(
                Seq::new(
                    items@.len(),
                    |i: int|
                        if 0 <= i < items@.len() {
                            items@[i].view()
                        } else {
                            TemplateData::Null
                        },
                ),
            ),
            TemplateValue::Record(fields) => TemplateData::Record(
                Map::new(
                    |name: Seq<char>|
                        spec_last_position(fields@, name, fields@.len() as int) >= 0,
                    |name: Seq<char>|
                        {
                            let i = spec_last_position(fields@, name, fields@.len() as int);
                            if 0 <= i < fields@.len() {
                                fields@[i].1.view()
                            } else {
                                TemplateData::Null
                            }
                        },
                ),
            ),
        }
    }
}

/// What a list of items denotes: the list of what the items denote.
pub open spec fn item_views(items: Seq<TemplateValue>) -> Seq<TemplateData> {
    Seq::new(items.len(), |i: int| items[i]@)
}

/// What a list of fields denotes: each name bound to what the last field
/// of that name denotes.
pub open spec fn field_views(fields: Seq<(String, TemplateValue)>) -> Map<
    Seq<char>,
    TemplateData,
>
    decreases fields.len(),
{
    if fields.len() == 0 {
        Map::empty()
    } else {
        field_views(fields.drop_last()).insert(fields.last().0@, fields.last().1@)
    }
}

proof fn lemma_last_position_range<T>(fields: Seq<(String, T)>, name: Seq<char>, upto: int)
    requires
        0 <= upto <= fields.len(),
    ensures
        -1 <= spec_last_position(fields, name, upto) < upto,
        spec_last_position(fields, name, upto) >= 0 ==> fields[spec_last_position(
            fields,
            name,
            upto,
        )].0@ == name,
    decreases upto,
{
    if upto > 0 && fields[upto - 1].0@ != name {
        lemma_last_position_range(fields, name, upto - 1);
    }
}

proof fn lemma_last_position_prefix<T>(fields: Seq<(String, T)>, name: Seq<char>, upto: int)
    requires
        0 <= upto < fields.len(),
    ensures
        spec_last_position(fields.drop_last(), name, upto) == spec_last_position(
            fields,
            name,
            upto,
        ),
    decreases upto,
{
    if upto > 0 {
        assert(fields.drop_last()[upto - 1] == fields[upto - 1]);
        lemma_last_position_prefix(fields, name, upto - 1);
    }
}

/// A record denotes the map of its fields.
pub proof fn lemma_record_view(fields: Vec<(String, TemplateValue)>)
    ensures
        TemplateValue::Record(fields)@ == TemplateData::Record(field_views(fields@)),
    decreases fields@.len(),
{
    lemma_record_fields(fields@);
    let record = TemplateValue::Record(fields)@;
    assert(record->Record_0 =~= field_views(fields@)) by {
        assert forall|name: Seq<char>|
            record->Record_0.contains_key(name) == field_views(fields@).contains_key(name) by {
            lemma_last_position_range(fields@, name, fields@.len() as int);
        }
        assert forall|name: Seq<char>| #[trigger]
            record->Record_0.contains_key(name) implies record->Record_0[name] == field_views(
            fields@,
        )[name] by {
            lemma_last_position_range(fields@, name, fields@.len() as int);
        }
    }
}

/// The map of a list of fields binds a name exactly when some field has
/// it, and binds it to what the last such field denotes.
pub proof fn lemma_record_fields(fields: Seq<(String, TemplateValue)>)
    ensures
        forall|name: Seq<char>|
            field_views(fields).contains_key(name) <==> #[trigger] spec_last_position(
                fields,
                name,
                fields.len() as int,
            ) >= 0,
        forall|name: Seq<char>|
            spec_last_position(fields, name, fields.len() as int) >= 0 ==> #[trigger] field_views(
                fields,
            )[name] == fields[spec_last_position(fields, name, fields.len() as int)].1@,
    decreases fields.len(),
{
    if fields.len() > 0 {
        let front = fields.drop_last();
        lemma_record_fields(front);
        assert forall|name: Seq<char>|
            field_views(fields).contains_key(name) <==> #[trigger] spec_last_position(
                fields,
                name,
                fields.len() as int,
            ) >= 0 by {
            lemma_last_position_prefix(fields, name, fields.len() - 1);
            let in_front = spec_last_position(front, name, front.len() as int);
            assert(field_views(front).contains_key(name) <==> in_front >= 0);
            assert(field_views(fields) == field_views(front).insert(
                fields.last().0@,
                fields.last().1@,
            ));
            if fields[fields.len() - 1].0@ == name {
                assert(spec_last_position(fields, name, fields.len() as int) == fields.len() - 1);
            } else {
                assert(spec_last_position(fields, name, fields.len() as int) == in_front);
            }
        }
        assert forall|name: Seq<char>|
            spec_last_position(fields, name, fields.len() as int) >= 0 implies #[trigger] field_views(
            fields,
        )[name] == fields[spec_last_position(fields, name, fields.len() as int)].1@ by {
            lemma_last_position_prefix(fields, name, fields.len() - 1);
            lemma_last_position_range(front, name, front.len() as int);
            if fields.last().0@ != name {
                let i = spec_last_position(front, name, front.len() as int);
                assert(front[i] == fields[i]);
            }
        }
    }
}

/// A list denotes the list of what its items denote.
pub proof fn lemma_list_view(items: Vec<TemplateValue>)
    ensures
        TemplateValue::List(items)@ == TemplateData::List(item_views(items@)),
{
    assert(TemplateValue::List(items)@->List_0 =~= item_views(items@));
}

} // verus!
