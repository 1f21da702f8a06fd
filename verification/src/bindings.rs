//! The values that a command template is rendered with: the patchset that
//! a trigger occurrence speaks of, and what its pattern captured.

use crate::captures::{entries_map, CaptureMap};
use crate::gerrit_types::{GerritApproval, GerritFileChange, GerritOwner, GerritPatchSet};
use crate::template::{
    field_views, item_views, lemma_list_view, lemma_record_view, TemplateData, TemplateValue,
};
use crate::text::{decimal, i64_to_string, signed_decimal, u64_to_string};
use vstd::prelude::*;

verus! {

/// A text, or the absent value where there is none.
pub open spec fn spec_optional_text(text: Option<String>) -> TemplateData {
    match text {
        Some(s) => TemplateData::Text(s@),
        None => TemplateData::Null,
    }
}

/// A number in decimal, or the absent value where there is none.
pub open spec fn spec_optional_number(number: Option<i32>) -> TemplateData {
    match number {
        Some(n) => TemplateData::Text(signed_decimal(n as int)),
        None => TemplateData::Null,
    }
}

pub open spec fn spec_owner_data(owner: GerritOwner) -> TemplateData {
    TemplateData::Record(
        Map::empty().insert("name"@, spec_optional_text(owner.name)).insert(
            "email"@,
            spec_optional_text(owner.email),
        ).insert("username"@, spec_optional_text(owner.username)),
    )
}

pub open spec fn spec_approval_data(approval: GerritApproval) -> TemplateData {
    TemplateData::Record(
        Map::empty().insert("type"@, TemplateData::Text(approval.record_type@)).insert(
            "description"@,
            spec_optional_text(approval.description),
        ).insert("value"@, TemplateData::Text(approval.value@)).insert(
            "grantedOn"@,
            TemplateData::Text(signed_decimal(approval.grantedOn as int)),
        ).insert("by"@, spec_owner_data(approval.by)),
    )
}

pub open spec fn spec_file_data(file: GerritFileChange) -> TemplateData {
    TemplateData::Record(
        Map::empty().insert("file"@, TemplateData::Text(file.file@)).insert(
            "type"@,
            TemplateData::Text(file.record_type@),
        ).insert("insertions"@, TemplateData::Text(signed_decimal(file.insertions as int))).insert(
            "deletions"@,
            TemplateData::Text(signed_decimal(file.deletions as int)),
        ),
    )
}

pub open spec fn spec_texts_data(texts: Seq<String>) -> TemplateData {
    TemplateData::List(Seq::new(texts.len(), |i: int| TemplateData::Text(texts[i]@)))
}

pub open spec fn spec_approvals_data(approvals: Option<Vec<GerritApproval>>) -> TemplateData {
    match approvals {
        Some(list) => TemplateData::List(
            Seq::new(list@.len(), |i: int| spec_approval_data(list@[i])),
        ),
        None => TemplateData::Null,
    }
}

pub open spec fn spec_files_data(files: Option<Vec<GerritFileChange>>) -> TemplateData {
    match files {
        Some(list) => TemplateData::List(Seq::new(list@.len(), |i: int| spec_file_data(list@[i]))),
        None => TemplateData::Null,
    }
}

/// A patchset as a template sees it: a record of its fields under the
/// names that the review server gives them, numbers written in decimal.
pub open spec fn spec_patchset_data(patchset: GerritPatchSet) -> TemplateData {
    TemplateData::Record(
        Map::empty().insert("number"@, TemplateData::Text(decimal(patchset.number as nat))).insert(
            "revision"@,
            TemplateData::Text(patchset.revision@),
        ).insert("parents"@, spec_texts_data(patchset.parents@)).insert(
            "ref"@,
            TemplateData::Text(patchset.ref_name@),
        ).insert("uploader"@, spec_owner_data(patchset.uploader)).insert(
            "createdOn"@,
            TemplateData::Text(signed_decimal(patchset.createdOn as int)),
        ).insert("author"@, spec_owner_data(patchset.author)).insert(
            "kind"@,
            TemplateData::Text(patchset.kind@),
        ).insert("approvals"@, spec_approvals_data(patchset.approvals)).insert(
            "files"@,
            spec_files_data(patchset.files),
        ).insert("sizeInsertions"@, spec_optional_number(patchset.sizeInsertions)).insert(
            "sizeDeletions"@,
            spec_optional_number(patchset.sizeDeletions),
        ),
    )
}

/// Captures as a template sees them: a record of texts.
pub open spec fn spec_captures_data(captures: Map<Seq<char>, Seq<char>>) -> TemplateData {
    TemplateData::Record(
        Map::new(
            |name: Seq<char>| captures.contains_key(name),
            |name: Seq<char>| TemplateData::Text(captures[name]),
        ),
    )
}

/// What a command template is rendered with: the patchset, if the change
/// has the one that the occurrence speaks of, under `patchset`, and the
/// captures under `regex`.
pub open spec fn spec_bindings(
    patchset: Option<GerritPatchSet>,
    captures: Map<Seq<char>, Seq<char>>,
) -> TemplateData {
    match patchset {
        Some(found) => TemplateData::Record(
            Map::empty().insert("patchset"@, spec_patchset_data(found)).insert(
                "regex"@,
                spec_captures_data(captures),
            ),
        ),
        None => TemplateData::Record(Map::empty().insert("regex"@, spec_captures_data(captures))),
    }
}

fn add_field(fields: &mut Vec<(String, TemplateValue)>, name: &str, value: TemplateValue)
    ensures
        field_views(final(fields)@) == field_views(old(fields)@).insert(name@, value@),
{
    let ghost before = fields@;
    fields.push((name.to_owned(), value));
    assert(fields@.drop_last() =~= before);
}

fn record(fields: Vec<(String, TemplateValue)>) -> (value: TemplateValue)
    ensures
        value@ == TemplateData::Record(field_views(fields@)),
{
    proof {
        lemma_record_view(fields);
    }
    TemplateValue::Record(fields)
}

fn list(items: Vec<TemplateValue>) -> (value: TemplateValue)
    ensures
        value@ == TemplateData::List(item_views(items@)),
{
    proof {
        lemma_list_view(items);
    }
    TemplateValue::List(items)
}

fn text(s: &String) -> (value: TemplateValue)
    ensures
        value@ == TemplateData::Text(s@),
{
    TemplateValue::Text(s.clone())
}

fn optional_text(s: &Option<String>) -> (value: TemplateValue)
    ensures
        value@ == spec_optional_text(*s),
{
    match s {
        Some(t) => text(t),
        None => TemplateValue::Null,
    }
}

fn number(n: i64) -> (value: TemplateValue)
    ensures
        value@ == TemplateData::Text(signed_decimal(n as int)),
{
    TemplateValue::Text(i64_to_string(n))
}

fn optional_number(n: Option<i32>) -> (value: TemplateValue)
    ensures
        value@ == spec_optional_number(n),
{
    match n {
        Some(m) => number(m as i64),
        None => TemplateValue::Null,
    }
}

fn owner_data(owner: &GerritOwner) -> (value: TemplateValue)
    ensures
        value@ == spec_owner_data(*owner),
{
    let mut fields: Vec<(String, TemplateValue)> = Vec::new();
    add_field(&mut fields, "name", optional_text(&owner.name));
    add_field(&mut fields, "email", optional_text(&owner.email));
    add_field(&mut fields, "username", optional_text(&owner.username));
    record(fields)
}

fn approval_data(approval: &GerritApproval) -> (value: TemplateValue)
    ensures
        value@ == spec_approval_data(*approval),
{
    let mut fields: Vec<(String, TemplateValue)> = Vec::new();
    add_field(&mut fields, "type", text(&approval.record_type));
    add_field(&mut fields, "description", optional_text(&approval.description));
    add_field(&mut fields, "value", text(&approval.value));
    add_field(&mut fields, "grantedOn", number(approval.grantedOn));
    add_field(&mut fields, "by", owner_data(&approval.by));
    record(fields)
}

fn file_data(file: &GerritFileChange) -> (value: TemplateValue)
    ensures
        value@ == spec_file_data(*file),
{
    let mut fields: Vec<(String, TemplateValue)> = Vec::new();
    add_field(&mut fields, "file", text(&file.file));
    add_field(&mut fields, "type", text(&file.record_type));
    add_field(&mut fields, "insertions", number(file.insertions as i64));
    add_field(&mut fields, "deletions", number(file.deletions as i64));
    record(fields)
}

fn texts_data(texts: &Vec<String>) -> (value: TemplateValue)
    ensures
        value@ == spec_texts_data(texts@),
{
    let mut items: Vec<TemplateValue> = Vec::new();
    let mut i: usize = 0;
    while i < texts.len()
        invariant
            i <= texts@.len(),
            items@.len() == i,
            forall|j: int| 0 <= j < i ==> (#[trigger] items@[j])@ == TemplateData::Text(texts@[j]@),
        decreases texts.len() - i,
    {
        items.push(text(&texts[i]));
        i += 1;
    }
    assert(item_views(items@) =~= spec_texts_data(texts@)->List_0);
    list(items)
}

fn approvals_data(approvals: &Option<Vec<GerritApproval>>) -> (value: TemplateValue)
    ensures
        value@ == spec_approvals_data(*approvals),
{
    match approvals {
        Some(all) => {
            let mut items: Vec<TemplateValue> = Vec::new();
            let mut i: usize = 0;
            while i < all.len()
                invariant
                    i <= all@.len(),
                    items@.len() == i,
                    forall|j: int|
                        0 <= j < i ==> (#[trigger] items@[j])@ == spec_approval_data(all@[j]),
                decreases all.len() - i,
            {
                items.push(approval_data(&all[i]));
                i += 1;
            }
            assert(item_views(items@) =~= spec_approvals_data(*approvals)->List_0);
            list(items)
        },
        None => TemplateValue::Null,
    }
}

fn files_data(files: &Option<Vec<GerritFileChange>>) -> (value: TemplateValue)
    ensures
        value@ == spec_files_data(*files),
{
    match files {
        Some(all) => {
            let mut items: Vec<TemplateValue> = Vec::new();
            let mut i: usize = 0;
            while i < all.len()
                invariant
                    i <= all@.len(),
                    items@.len() == i,
                    forall|j: int| 0 <= j < i ==> (#[trigger] items@[j])@ == spec_file_data(all@[j]),
                decreases all.len() - i,
            {
                items.push(file_data(&all[i]));
                i += 1;
            }
            assert(item_views(items@) =~= spec_files_data(*files)->List_0);
            list(items)
        },
        None => TemplateValue::Null,
    }
}

/// The record that a template sees of a patchset.
pub fn patchset_data(patchset: &GerritPatchSet) -> (value: TemplateValue)
    ensures
        value@ == spec_patchset_data(*patchset),
{
    let mut fields: Vec<(String, TemplateValue)> = Vec::new();
    add_field(&mut fields, "number", TemplateValue::Text(u64_to_string(patchset.number as u64)));
    add_field(&mut fields, "revision", text(&patchset.revision));
    add_field(&mut fields, "parents", texts_data(&patchset.parents));
    add_field(&mut fields, "ref", text(&patchset.ref_name));
    add_field(&mut fields, "uploader", owner_data(&patchset.uploader));
    add_field(&mut fields, "createdOn", number(patchset.createdOn));
    add_field(&mut fields, "author", owner_data(&patchset.author));
    add_field(&mut fields, "kind", text(&patchset.kind));
    add_field(&mut fields, "approvals", approvals_data(&patchset.approvals));
    add_field(&mut fields, "files", files_data(&patchset.files));
    add_field(&mut fields, "sizeInsertions", optional_number(patchset.sizeInsertions));
    add_field(&mut fields, "sizeDeletions", optional_number(patchset.sizeDeletions));
    record(fields)
}

/// The record that a template sees of the captures.
pub fn captures_data(captures: &CaptureMap) -> (value: TemplateValue)
    ensures
        value@ == spec_captures_data(captures@),
{
    let ghost entries = captures.spec_entries();
    let mut fields: Vec<(String, TemplateValue)> = Vec::new();
    let mut i: usize = 0;
    while i < captures.len()
        invariant
            i <= entries.len(),
            entries == captures.spec_entries(),
            field_views(fields@) == spec_captures_data(
                entries_map(entries.take(i as int)),
            )->Record_0,
        decreases entries.len() - i,
    {
        let entry = captures.entry(i);
        let ghost before = field_views(fields@);
        assert(entries.take(i + 1).drop_last() =~= entries.take(i as int));
        assert(entries.take(i + 1).last() == entries[i as int]);
        add_field(&mut fields, entry.0.as_str(), text(entry.1));
        assert(field_views(fields@) =~= spec_captures_data(
            entries_map(entries.take(i + 1)),
        )->Record_0);
        i += 1;
    }
    assert(entries.take(entries.len() as int) =~= entries);
    record(fields)
}

/// What the command template of an occurrence is rendered with.
pub fn bindings(patchset: Option<&GerritPatchSet>, captures: &CaptureMap) -> (value: TemplateValue)
    ensures
        value@ == spec_bindings(
            match patchset {
                Some(p) => Some(*p),
                None => None,
            },
            captures@,
        ),
{
    let mut fields: Vec<(String, TemplateValue)> = Vec::new();
    match patchset {
        Some(found) => {
            add_field(&mut fields, "patchset", patchset_data(found));
        },
        None => {},
    }
    add_field(&mut fields, "regex", captures_data(captures));
    record(fields)
}

} // verus!
